//! What an agent has accepted and not yet taken, and how it becomes input.

use crate::components::queue::inbox::{Incoming, IncomingView};
use crate::events::{AgentDomainEvent, AgentDomainEventView};
use crate::lists;
use crate::model::{LifecycleEvent, LifecycleEventView};
use crate::state::{AgentLogBody, AgentLogBodyView, AgentState, AgentStateView};
use crate::text::{Dup, contains};
use vstd::prelude::*;

pub mod inbox;

verus! {

/// An item, unless it is one of those taken.
pub open spec fn untaken(ids: Seq<Seq<char>>, item: IncomingView) -> Option<IncomingView> {
    if ids.contains(item.id()) {
        None
    } else {
        Some(item)
    }
}

/// What is left in a queue once these have been taken.
pub open spec fn left_in(inbox: Seq<IncomingView>, ids: Seq<Seq<char>>) -> Seq<IncomingView> {
    lists::filter_map(inbox, |i: IncomingView| untaken(ids, i))
}

/// What the queue's own events do to an agent.
pub open spec fn queue_fold(state: AgentStateView, event: AgentDomainEventView) -> AgentStateView {
    match event {
        AgentDomainEventView::InputMessage { message } => state.pushed(
            message.created_at_ms,
            AgentLogBodyView::Llm(message),
        ),
        AgentDomainEventView::Received { item, at_ms } => {
            let queued = AgentStateView { inbox: state.inbox.push(item), ..state };
            match item {
                IncomingView::User { id, text, .. } => queued.pushed(
                    at_ms,
                    AgentLogBodyView::Lifecycle(LifecycleEventView::MessageQueued { id, text }),
                ),
                _ => queued,
            }
        },
        AgentDomainEventView::Consumed { ids, .. } => AgentStateView {
            inbox: left_in(state.inbox, ids),
            ..state
        },
        AgentDomainEventView::TurnBegan { consumed, .. } => AgentStateView {
            inbox: left_in(state.inbox, consumed),
            asks: seq![],
            ..state
        },
        AgentDomainEventView::AskRecorded { asks, .. } => AgentStateView { asks, ..state },
        _ => state,
    }
}

/// Take these items out of a queue.
fn take_out(inbox: &Vec<Incoming>, ids: &[String]) -> (r: Vec<Incoming>)
    ensures
        r.deep_view() == left_in(inbox.deep_view(), ids.deep_view()),
{
    let ghost all = inbox.deep_view();
    let ghost keep = |i: IncomingView| untaken(ids.deep_view(), i);
    let mut out: Vec<Incoming> = Vec::new();
    for i in 0..inbox.len()
        invariant
            all == inbox.deep_view(),
            keep == (|i: IncomingView| untaken(ids.deep_view(), i)),
            out.deep_view() == lists::filter_map(all.take(i as int), keep),
    {
        let ghost had = out.deep_view();
        proof {
            assert(all[i as int] == inbox@[i as int].deep_view());
            lists::lemma_filter_map_step(all, keep, i as int);
        }
        if !contains(ids, inbox[i].id()) {
            out.push(inbox[i].dup());
            proof {
                assert(out.deep_view() =~= had.push(all[i as int]));
            }
        }
    }
    proof {
        assert(all.take(inbox.len() as int) =~= all);
    }
    out
}

/// What this agent has accepted, and how it becomes input.
#[derive(Debug, PartialEq, Eq)]
pub struct Queue;

impl Queue {
    /// Fold one of the queue's events into state.
    pub fn apply(state: &mut AgentState, event: &AgentDomainEvent)
        ensures
            final(state).deep_view() == queue_fold(old(state).deep_view(), event.deep_view()),
    {
        let ghost had = state.deep_view();
        let ghost after = queue_fold(had, event.deep_view());
        match event {
            AgentDomainEvent::InputMessage { message } => {
                state.push(message.created_at_ms, AgentLogBody::Llm(message.dup()));
            },
            AgentDomainEvent::Received { item, at_ms } => {
                state.inbox.push(item.dup());
                proof {
                    assert(state.deep_view() =~= (AgentStateView {
                        inbox: had.inbox.push(item.deep_view()),
                        ..had
                    }));
                }
                if let Incoming::User { id, text, .. } = item {
                    state.push(
                        *at_ms,
                        AgentLogBody::Lifecycle(
                            LifecycleEvent::MessageQueued { id: id.clone(), text: text.clone() },
                        ),
                    );
                }
            },
            AgentDomainEvent::Consumed { ids, .. } => {
                state.inbox = take_out(&state.inbox, ids);
                proof {
                    assert(state.deep_view() =~= after);
                }
            },
            AgentDomainEvent::TurnBegan { consumed, .. } => {
                state.inbox = take_out(&state.inbox, consumed);
                state.asks = Vec::new();
                proof {
                    assert(state.deep_view() =~= after);
                }
            },
            AgentDomainEvent::AskRecorded { asks, .. } => {
                state.asks = asks.dup();
                proof {
                    assert(state.deep_view() =~= after);
                }
            },
            _ => {},
        }
    }
}

/// What was taken is gone, and nothing else is: an accepted message stays
/// until something takes it.
pub proof fn law_only_what_was_taken_leaves_the_queue(
    inbox: Seq<IncomingView>,
    ids: Seq<Seq<char>>,
    item: IncomingView,
)
    ensures
        left_in(inbox, ids).contains(item) <==> inbox.contains(item) && !ids.contains(item.id()),
{
    let keep = |i: IncomingView| untaken(ids, i);
    lists::lemma_filter_map_members(inbox, keep);
    assert(left_in(inbox, ids) == lists::filter_map(inbox, keep));
    if inbox.contains(item) && !ids.contains(item.id()) {
        let k = choose|k: int| 0 <= k < inbox.len() && inbox[k] == item;
        assert(keep(inbox[k]) == Some(item));
    }
    if left_in(inbox, ids).contains(item) {
        let k = choose|k: int| 0 <= k < inbox.len() && keep(#[trigger] inbox[k]) == Some(item);
        assert(inbox[k] == item);
    }
}

} // verus!
