//! What an agent has spent, and how much of the window it is holding.
//!
//! Three kinds of work write to it: a turn banks what its calls cost, a
//! compaction banks its summarising call, and a summary taken for a sub
//! session banks its own. None of them can reach the numbers: they go through
//! [`UsageState::bank`], the one rule for how a cost is added.

use crate::model::{Usage, UsageView};
use crate::text::Dup;
use crate::timers;
use vstd::prelude::*;

verus! {

/// Everything an agent has ever been charged, or the largest amount there is.
#[derive(Debug, Clone, Copy, PartialEq, Eq, Structural)]
pub struct UsageTotal {
    pub input_tokens: u64,
    pub output_tokens: u64,
}

/// A total with one more charge in it.
pub open spec fn total_after(total: UsageTotal, usage: UsageView) -> UsageTotal {
    UsageTotal {
        input_tokens: timers::capped_sum(total.input_tokens, usage.input_tokens as int),
        output_tokens: timers::capped_sum(total.output_tokens, usage.output_tokens as int),
    }
}

/// Nothing charged yet.
pub open spec fn no_charge() -> UsageTotal {
    UsageTotal { input_tokens: 0, output_tokens: 0 }
}

impl UsageTotal {
    /// Add one charge.
    pub fn add(&mut self, usage: &Usage)
        ensures
            *final(self) == total_after(*old(self), usage.deep_view()),
    {
        let input: u64 = self.input_tokens.saturating_add(usage.input_tokens as u64);
        let output: u64 = self.output_tokens.saturating_add(usage.output_tokens as u64);
        *self = UsageTotal { input_tokens: input, output_tokens: output };
    }
}

impl Default for UsageTotal {
    fn default() -> (r: Self)
        ensures
            r == no_charge(),
    {
        UsageTotal { input_tokens: 0, output_tokens: 0 }
    }
}

/// The running bill, and the size of the prompt behind it.
#[derive(Debug, PartialEq, Eq)]
pub struct UsageState {
    total: UsageTotal,
    last_turn: Option<Usage>,
    context_tokens: u32,
}

/// What a [`UsageState`] stands for.
#[verifier::ext_equal]
pub struct UsageStateView {
    /// Everything this agent has ever spent.
    pub total: UsageTotal,
    /// What the newest provider step spent.
    pub last_turn: Option<UsageView>,
    /// The prompt size of the newest provider step alone.
    pub context_tokens: u32,
}

impl DeepView for UsageState {
    type V = UsageStateView;

    closed spec fn deep_view(&self) -> UsageStateView {
        UsageStateView {
            total: self.total,
            last_turn: self.last_turn.deep_view(),
            context_tokens: self.context_tokens,
        }
    }
}

impl UsageStateView {
    /// Nothing spent, nothing loaded.
    pub open spec fn empty() -> UsageStateView {
        UsageStateView { total: no_charge(), last_turn: None, context_tokens: 0 }
    }

    /// The bill with one more cost in it.
    pub open spec fn banked(self, usage: UsageView) -> UsageStateView {
        UsageStateView { total: total_after(self.total, usage), ..self }
    }

    /// The bill once a provider step has completed.
    pub open spec fn stepped(self, usage: UsageView) -> UsageStateView {
        UsageStateView {
            total: total_after(self.total, usage),
            last_turn: Some(usage),
            context_tokens: usage.input_tokens,
        }
    }

    /// What a sub session branched from here starts with.
    pub open spec fn carried(self) -> UsageStateView {
        UsageStateView { total: no_charge(), last_turn: None, context_tokens: self.context_tokens }
    }
}

impl UsageState {
    /// Everything this agent has ever spent.
    pub fn total(&self) -> (r: UsageTotal)
        ensures
            r == self.deep_view().total,
    {
        self.total
    }

    /// What the newest provider step spent; nothing before the first one.
    pub fn last_turn(&self) -> (r: Option<&Usage>)
        ensures
            match r {
                Some(usage) => self.deep_view().last_turn == Some(usage.deep_view()),
                None => self.deep_view().last_turn is None,
            },
    {
        match &self.last_turn {
            Some(usage) => Some(usage),
            None => None,
        }
    }

    /// The prompt size of the newest provider step alone, never summed.
    pub fn context_tokens(&self) -> (r: u32)
        ensures
            r == self.deep_view().context_tokens,
    {
        self.context_tokens
    }

    /// Add what a call cost. Everything spent goes through here, whoever spent
    /// it.
    pub fn bank(&mut self, usage: &Usage)
        ensures
            final(self).deep_view() == old(self).deep_view().banked(usage.deep_view()),
    {
        self.total.add(usage);
    }

    /// Bank one completed provider step.
    pub fn step_completed(&mut self, usage: Usage)
        ensures
            final(self).deep_view() == old(self).deep_view().stepped(usage.deep_view()),
    {
        self.context_tokens = usage.input_tokens;
        self.total.add(&usage);
        self.last_turn = Some(usage);
    }

    /// What the newest provider call was charged for its prompt.
    pub fn context_is(&mut self, tokens: u32)
        ensures
            final(self).deep_view() == (UsageStateView {
                context_tokens: tokens,
                ..old(self).deep_view()
            }),
    {
        self.context_tokens = tokens;
    }

    /// What a sub session branched from here starts with. The context size
    /// carries; the bill does not, or the same tokens would be counted under
    /// both sessions.
    pub fn carried(&self) -> (r: Option<Self>)
        ensures
            r matches Some(usage) && usage.deep_view() == self.deep_view().carried(),
    {
        Some(
            UsageState {
                total: UsageTotal { input_tokens: 0, output_tokens: 0 },
                last_turn: None,
                context_tokens: self.context_tokens,
            },
        )
    }
}

impl Default for UsageState {
    fn default() -> (r: Self)
        ensures
            r.deep_view() == UsageStateView::empty(),
    {
        UsageState {
            total: UsageTotal { input_tokens: 0, output_tokens: 0 },
            last_turn: None,
            context_tokens: 0,
        }
    }
}

impl Dup for UsageState {
    fn dup(&self) -> (out: Self) {
        UsageState {
            total: self.total,
            last_turn: self.last_turn.dup(),
            context_tokens: self.context_tokens,
        }
    }
}

impl Clone for UsageState {
    fn clone(&self) -> (out: Self)
        ensures
            out.deep_view() == self.deep_view(),
    {
        self.dup()
    }
}

/// The order in which two costs are banked does not matter.
pub proof fn law_costs_commute(bill: UsageStateView, a: UsageView, b: UsageView)
    ensures
        bill.banked(a).banked(b) == bill.banked(b).banked(a),
{
}

/// No cost is lost: what is banked never makes the total smaller, and short of
/// the largest amount there is it adds exactly what was charged.
pub proof fn law_no_cost_is_lost(bill: UsageStateView, usage: UsageView)
    ensures
        bill.banked(usage).total.input_tokens >= bill.total.input_tokens,
        bill.banked(usage).total.output_tokens >= bill.total.output_tokens,
        bill.total.input_tokens + usage.input_tokens <= u64::MAX ==> bill.banked(
            usage,
        ).total.input_tokens == bill.total.input_tokens + usage.input_tokens,
        bill.total.output_tokens + usage.output_tokens <= u64::MAX ==> bill.banked(
            usage,
        ).total.output_tokens == bill.total.output_tokens + usage.output_tokens,
        bill.stepped(usage).total == bill.banked(usage).total,
{
}

} // verus!
