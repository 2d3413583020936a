//! What others write into an agent's transcript.

use crate::events::{AgentDomainEvent, AgentDomainEventView};
use crate::state::{AgentLogBody, AgentLogBodyView, AgentState, AgentStateView};
use crate::text::Dup;
use vstd::prelude::*;

verus! {

/// What is written into a transcript from outside.
pub open spec fn log_fold(state: AgentStateView, event: AgentDomainEventView) -> AgentStateView {
    match event {
        AgentDomainEventView::HookRan { record, at_ms, .. } => state.pushed(
            at_ms,
            AgentLogBodyView::Hook(record),
        ),
        AgentDomainEventView::LifecycleRecorded { event, at_ms } => state.pushed(
            at_ms,
            AgentLogBodyView::Lifecycle(event),
        ),
        _ => state,
    }
}

/// Things written into this agent's log by somebody else.
#[derive(Debug, PartialEq, Eq)]
pub struct LogWrites;

impl LogWrites {
    /// Fold one of these events into state.
    pub fn apply(state: &mut AgentState, event: &AgentDomainEvent)
        ensures
            final(state).deep_view() == log_fold(old(state).deep_view(), event.deep_view()),
    {
        match event {
            AgentDomainEvent::HookRan { record, at_ms, .. } => {
                state.push(*at_ms, AgentLogBody::Hook(record.dup()));
            },
            AgentDomainEvent::LifecycleRecorded { event, at_ms } => {
                state.push(*at_ms, AgentLogBody::Lifecycle(event.dup()));
            },
            _ => {},
        }
    }
}

} // verus!
