//! Folding old history behind a summary boundary.

use crate::events::{AgentDomainEvent, AgentDomainEventView};
use crate::state::{AgentLogBody, AgentLogBodyView, AgentState, AgentStateView};
use crate::text::Dup;
use vstd::prelude::*;

verus! {

/// What a compaction does to an agent: one more entry in the transcript, which
/// keeps everything it held, and what the summarising call cost.
pub open spec fn compaction_fold(
    state: AgentStateView,
    event: AgentDomainEventView,
) -> AgentStateView {
    match event {
        AgentDomainEventView::Compacted {
            summary,
            carried_state,
            retained_from_message_id,
            usage,
            at_ms,
            ..
        } => {
            let bounded = state.pushed(
                at_ms,
                AgentLogBodyView::Compacted { summary, carried_state, retained_from_message_id },
            );
            match usage {
                Some(usage) => AgentStateView { usage: bounded.usage.banked(usage), ..bounded },
                None => bounded,
            }
        },
        _ => state,
    }
}

/// Folding old history behind a summary boundary.
#[derive(Debug, PartialEq, Eq)]
pub struct Compaction;

impl Compaction {
    /// Fold a compaction into state.
    pub fn apply(state: &mut AgentState, event: &AgentDomainEvent)
        ensures
            final(state).deep_view() == compaction_fold(old(state).deep_view(), event.deep_view()),
    {
        let ghost after = compaction_fold(state.deep_view(), event.deep_view());
        if let AgentDomainEvent::Compacted {
            summary,
            carried_state,
            retained_from_message_id,
            usage,
            at_ms,
            ..
        } = event {
            state.push(
                *at_ms,
                AgentLogBody::Compacted {
                    summary: summary.clone(),
                    carried_state: carried_state.clone(),
                    retained_from_message_id: retained_from_message_id.dup(),
                },
            );
            if let Some(usage) = usage {
                state.usage.bank(usage);
                proof {
                    assert(state.deep_view() =~= after);
                }
            }
        }
    }
}

/// A compaction takes nothing out of the transcript.
pub proof fn law_a_compaction_keeps_the_transcript(
    state: AgentStateView,
    event: AgentDomainEventView,
)
    ensures
        state.log.is_prefix_of(compaction_fold(state, event).log),
{
}

} // verus!
