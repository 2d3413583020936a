//! Being a sub session, and being branched from.
//!
//! Branching changes nothing about the session being branched. Adopting a
//! history is the other half, and it is one write: the message rides along with
//! the state, because enqueued first it would be answered before there is a
//! history, and enqueued after it could be lost to a crash in between.

use crate::commands::SeedCommand;
use crate::component::{CommandEffect, CommandEffectView, StepPhase, StepRun};
use crate::components;
use crate::components::queue::inbox::{Incoming, IncomingView};
use crate::events::{AgentDomainEvent, AgentDomainEventView, StepKind, StepKindView};
use crate::ids::SessionId;
use crate::model::{Message, MessageView, Usage, UsageView};
use crate::state::{AgentLogBody, AgentLogBodyView, AgentState, AgentStateView};
use crate::text::{self, Dup, join, same};
use vstd::prelude::*;

verus! {

/// The state an agent has once it has adopted a history.
pub open spec fn seeded(state: AgentStateView, seed: Option<MessageView>) -> AgentStateView {
    match seed {
        Some(message) => state.pushed(message.created_at_ms, AgentLogBodyView::Llm(message)),
        None => state,
    }
}

/// What a summary taken for a sub session does to the agent it was taken of:
/// what it cost, and nothing else.
pub open spec fn summary_fold(state: AgentStateView, event: AgentDomainEventView) -> AgentStateView {
    match event {
        AgentDomainEventView::SeedSummaryTaken { usage: Some(usage), .. } => AgentStateView {
            usage: state.usage.banked(usage),
            ..state
        },
        _ => state,
    }
}

/// Whether an agent has adopted a history already: it has a transcript, or
/// something queued.
pub open spec fn is_seeded(state: AgentStateView) -> bool {
    state.log.len() > 0 || state.inbox.len() > 0
}

/// Messages, each as an event.
pub open spec fn as_inputs(messages: Seq<MessageView>) -> Seq<AgentDomainEventView> {
    messages.map_values(|message: MessageView| AgentDomainEventView::InputMessage { message })
}

/// What adopting a history writes.
pub open spec fn seeding(
    state: AgentStateView,
    seed: Option<MessageView>,
    repairs: Seq<MessageView>,
    message: IncomingView,
    now: u64,
) -> CommandEffectView {
    CommandEffectView::persist_and_snapshot(
        seq![AgentDomainEventView::Seeded { state, seed }] + as_inputs(repairs) + seq![
            AgentDomainEventView::Received { item: message, at_ms: now },
        ],
    )
}

/// Whether this is the summary the open step is taking.
pub open spec fn summary_is_open(
    state: AgentStateView,
    marker_seq: u64,
    consumed: Seq<Seq<char>>,
) -> bool {
    state.open_step() == Some(
        (marker_seq, StepKindView::SeedSummary { request_id: text::joined(consumed, ":"@) }),
    )
}

/// What a summary writes: the summary, and the requests it answers crossed off.
pub open spec fn summary_events(
    consumed: Seq<Seq<char>>,
    sub_sessions: Seq<SessionId>,
    result: Result<Seq<char>, Seq<char>>,
    usage: Option<UsageView>,
    now: u64,
) -> Seq<AgentDomainEventView> {
    seq![
        AgentDomainEventView::SeedSummaryTaken {
            request_id: text::joined(consumed, ":"@),
            sub_sessions,
            result,
            usage,
            at_ms: now,
        },
        AgentDomainEventView::Consumed { ids: consumed, at_ms: now },
    ]
}

/// What a text result stands for.
pub open spec fn result_view(result: Result<String, String>) -> Result<Seq<char>, Seq<char>> {
    match result {
        Ok(text) => Ok(text@),
        Err(text) => Err(text@),
    }
}

/// Messages, each as an event.
pub fn input_events(messages: Vec<Message>) -> (r: Vec<AgentDomainEvent>)
    ensures
        r.deep_view() == as_inputs(messages.deep_view()),
{
    let ghost want = as_inputs(messages.deep_view());
    let mut out: Vec<AgentDomainEvent> = Vec::new();
    for i in 0..messages.len()
        invariant
            want == as_inputs(messages.deep_view()),
            want.len() == messages.len(),
            out.deep_view() == want.take(i as int),
    {
        let ghost had = out.deep_view();
        let event = AgentDomainEvent::InputMessage { message: messages[i].dup() };
        proof {
            assert(messages.deep_view()[i as int] == messages@[i as int].deep_view());
            assert(event.deep_view() == want[i as int]);
        }
        out.push(event);
        proof {
            assert(out.deep_view() =~= had.push(want[i as int]));
            assert(want.take(i + 1) =~= want.take(i as int).push(want[i as int]));
        }
    }
    proof {
        assert(want.take(messages.len() as int) =~= want);
    }
    out
}

/// A seed message, out of its box.
pub open spec fn unboxed(seed: Option<Box<Message>>) -> Option<MessageView> {
    match seed {
        Some(message) => Some((*message).deep_view()),
        None => None,
    }
}

/// What a seeding command comes to.
#[derive(Debug, PartialEq, Eq)]
pub enum SeedOutcome {
    /// Whoever asked is handed this agent's state, cut at `at_seq`. Nothing is
    /// written.
    Snapshot { at_seq: u64 },
    /// Whoever asked is told at once that the work is done. Nothing is written.
    AlreadySeeded,
    /// This is written, and whoever asked is told how the write ended.
    Adopt(CommandEffect),
    /// This is written. Nobody waits for it.
    Summary(CommandEffect),
}

/// Being a sub session, and being branched from.
#[derive(Debug, PartialEq, Eq)]
pub struct Seeding;

impl Seeding {
    /// Decide what a seeding command means. `repairs` are the results the
    /// unanswered tool calls of a history to adopt are given.
    pub fn handle(
        cmd: SeedCommand,
        state: &AgentState,
        step_run: &mut StepRun,
        repairs: Vec<Message>,
        now: u64,
    ) -> (r: SeedOutcome)
        ensures
            match cmd {
                SeedCommand::Snapshot { at_seq } => {
                    &&& r == (SeedOutcome::Snapshot { at_seq })
                    &&& final(step_run).deep_view() == old(step_run).deep_view()
                },
                SeedCommand::SeedFrom { state: history, seed, message } => {
                    &&& final(step_run).deep_view() == old(step_run).deep_view()
                    &&& if is_seeded(state.deep_view()) {
                        r == SeedOutcome::AlreadySeeded
                    } else {
                        r matches SeedOutcome::Adopt(effect) && effect.deep_view() == seeding(
                            (*history).deep_view(),
                            unboxed(seed),
                            repairs.deep_view(),
                            message.deep_view(),
                            now,
                        )
                    }
                },
                SeedCommand::SummaryTaken { marker_seq, consumed, sub_sessions, result, usage } => {
                    let open = summary_is_open(state.deep_view(), marker_seq, consumed.deep_view());
                    let run = old(step_run).deep_view();
                    &&& final(step_run).deep_view() == (if open {
                        run.settled(marker_seq)
                    } else {
                        run
                    })
                    &&& r matches SeedOutcome::Summary(effect) && effect.deep_view() == (if open
                        && run.live(marker_seq) {
                        CommandEffectView::persist(
                            summary_events(
                                consumed.deep_view(),
                                sub_sessions.deep_view(),
                                result_view(result),
                                usage.deep_view(),
                                now,
                            ),
                        )
                    } else {
                        CommandEffectView::none()
                    })
                },
            },
    {
        match cmd {
            SeedCommand::Snapshot { at_seq } => SeedOutcome::Snapshot { at_seq },
            SeedCommand::SeedFrom { state: history, seed, message } => {
                let first = match seed {
                    Some(boxed) => Some(*boxed),
                    None => None,
                };
                match Seeding::seed_from(state, history, first, repairs, message, now) {
                    Some(effect) => SeedOutcome::Adopt(effect),
                    None => SeedOutcome::AlreadySeeded,
                }
            },
            SeedCommand::SummaryTaken { marker_seq, consumed, sub_sessions, result, usage } => {
                SeedOutcome::Summary(
                    Seeding::summary_taken(
                        state,
                        step_run,
                        marker_seq,
                        consumed,
                        sub_sessions,
                        result,
                        usage,
                        now,
                    ),
                )
            },
        }
    }

    /// Adopt `history` as this agent's whole history, append `seed` after it
    /// if there is one, and queue `message`, all in one write. `repairs` are
    /// the results the adopted history's unanswered tool calls are given.
    ///
    /// `None` when a history has been adopted already, which is no error: a
    /// process that died after this write comes back and asks again, and the
    /// honest answer is that the work is done.
    pub fn seed_from(
        state: &AgentState,
        history: Box<AgentState>,
        seed: Option<Message>,
        repairs: Vec<Message>,
        message: Incoming,
        now: u64,
    ) -> (r: Option<CommandEffect>)
        ensures
            r.deep_view() == (if is_seeded(state.deep_view()) {
                None
            } else {
                Some(
                    seeding(
                        (*history).deep_view(),
                        seed.deep_view(),
                        repairs.deep_view(),
                        message.deep_view(),
                        now,
                    ),
                )
            }),
    {
        if state.log.len() > 0 || state.inbox.len() > 0 {
            return None;
        }
        let ghost adopted = (*history).deep_view();
        let first = AgentDomainEvent::Seeded { state: history, seed };
        let last = AgentDomainEvent::Received { item: message, at_ms: now };
        proof {
            assert(first.deep_view() == AgentDomainEventView::Seeded {
                state: adopted,
                seed: seed.deep_view(),
            });
        }
        let mut events: Vec<AgentDomainEvent> = Vec::new();
        events.push(first);
        proof {
            assert(events.deep_view() =~= seq![first.deep_view()]);
        }
        let ghost had = events.deep_view();
        let mut repaired = input_events(repairs);
        let ghost fixes = repaired.deep_view();
        events.append(&mut repaired);
        proof {
            assert(events.deep_view() =~= had + fixes);
        }
        let ghost had = events.deep_view();
        events.push(last);
        proof {
            assert(events.deep_view() =~= had + seq![last.deep_view()]);
        }
        Some(CommandEffect::persist(events).and_snapshot())
    }

    /// Start taking a summary for the open marker. The generation handed back
    /// is what the work is cancelled by; `None` when nothing is prepared to
    /// run against.
    pub fn take_summary(step_run: &mut StepRun, marker_seq: u64) -> (r: Option<u64>)
        ensures
            r is Some == old(step_run).ctx is Some,
            r matches Some(generation) ==> generation == old(step_run).generation,
            final(step_run).deep_view() == (if old(step_run).ctx is Some {
                old(step_run).deep_view().begun(StepPhase::SeedSummary, marker_seq)
            } else {
                old(step_run).deep_view()
            }),
    {
        if step_run.ctx.is_none() {
            return None;
        }
        Some(step_run.begin(StepPhase::SeedSummary, marker_seq))
    }

    /// A summary was taken. Dropped when it is not the one the open step is
    /// taking, or when the step was stopped.
    pub fn summary_taken(
        state: &AgentState,
        step_run: &mut StepRun,
        marker_seq: u64,
        consumed: Vec<String>,
        sub_sessions: Vec<SessionId>,
        result: Result<String, String>,
        usage: Option<Usage>,
        now: u64,
    ) -> (r: CommandEffect)
        ensures
            ({
                let open = summary_is_open(state.deep_view(), marker_seq, consumed.deep_view());
                &&& final(step_run).deep_view() == (if open {
                    old(step_run).deep_view().settled(marker_seq)
                } else {
                    old(step_run).deep_view()
                })
                &&& r.deep_view() == (if open && old(step_run).deep_view().live(marker_seq) {
                    CommandEffectView::persist(
                        summary_events(
                            consumed.deep_view(),
                            sub_sessions.deep_view(),
                            result_view(result),
                            usage.deep_view(),
                            now,
                        ),
                    )
                } else {
                    CommandEffectView::none()
                })
            }),
    {
        let request = join(&consumed, ":");
        let open = match state.open_step() {
            Some((seq, StepKind::SeedSummary { request_id })) => seq == marker_seq && same(
                request_id.as_str(),
                request.as_str(),
            ),
            _ => false,
        };
        if !open || !step_run.finished(marker_seq) {
            return CommandEffect::none();
        }
        let taken = AgentDomainEvent::SeedSummaryTaken {
            request_id: request,
            sub_sessions,
            result,
            usage,
            at_ms: now,
        };
        let crossed = AgentDomainEvent::Consumed { ids: consumed, at_ms: now };
        let mut events: Vec<AgentDomainEvent> = Vec::new();
        events.push(taken);
        events.push(crossed);
        proof {
            assert(events.deep_view() =~= seq![taken.deep_view(), crossed.deep_view()]);
        }
        CommandEffect::persist(events)
    }

    /// Fold a summary's cost into state. Nothing else about this agent
    /// changed.
    pub fn apply(state: &mut AgentState, event: &AgentDomainEvent)
        ensures
            final(state).deep_view() == summary_fold(old(state).deep_view(), event.deep_view()),
    {
        let ghost after = summary_fold(state.deep_view(), event.deep_view());
        if let AgentDomainEvent::SeedSummaryTaken { usage: Some(usage), .. } = event {
            state.usage.bank(usage);
            proof {
                assert(state.deep_view() =~= after);
            }
        }
    }

    /// The history this agent adopts, and the seed appended after it.
    pub fn adopt(history: Box<AgentState>, seed: Option<Message>) -> (r: AgentState)
        ensures
            r.deep_view() == seeded((*history).deep_view(), seed.deep_view()),
    {
        let mut state = *history;
        if let Some(message) = seed {
            state.push(message.created_at_ms, AgentLogBody::Llm(message));
        }
        state
    }
}

/// What whoever asked for a history to be adopted is told once its write was
/// acknowledged; `None` when it never was.
pub fn seed_answer(written: Option<Result<(), String>>) -> (r: Result<(), String>)
    ensures
        match written {
            Some(Ok(())) => r is Ok,
            Some(Err(e)) => r matches Err(told) && told@ == "persist the sub session's history: "@
                + e@,
            None => r matches Err(told) && told@ == "the sub session's history was never written"@,
        },
{
    match written {
        Some(Ok(())) => Ok(()),
        Some(Err(e)) => {
            let mut told = "persist the sub session's history: ".to_owned();
            told.append(e.as_str());
            Err(told)
        },
        None => Err("the sub session's history was never written".to_owned()),
    }
}

/// Adopting a history is done at most once: what it leaves queued is what a
/// second request finds.
pub proof fn law_a_seeded_agent_is_not_seeded_again(
    state: AgentStateView,
    history: AgentStateView,
    seed: Option<MessageView>,
    repairs: Seq<MessageView>,
    message: IncomingView,
    now: u64,
)
    ensures
        is_seeded(
            components::applied_all(state, seeding(history, seed, repairs, message, now).events),
        ),
{
    let events = seeding(history, seed, repairs, message, now).events;
    assert(components::applied_all(state, events) == components::applied(
        components::applied_all(state, events.drop_last()),
        events.last(),
    ));
}

/// Messages folded one after another grow the transcript and the history, and
/// queue nothing.
proof fn lemma_inputs_only_append(state: AgentStateView, messages: Seq<MessageView>)
    ensures
        ({
            let after = components::applied_all(state, as_inputs(messages));
            &&& state.log.is_prefix_of(after.log)
            &&& state.history.is_prefix_of(after.history)
            &&& after.inbox == state.inbox
        }),
    decreases messages.len(),
{
    if messages.len() > 0 {
        lemma_inputs_only_append(state, messages.drop_last());
        assert(as_inputs(messages).drop_last() =~= as_inputs(messages.drop_last()));
    }
}

/// The adopted history comes first in what the agent then has: nothing of it
/// is lost, whatever repairs it takes, and the message is queued behind it.
pub proof fn law_an_adopted_history_is_kept(
    state: AgentStateView,
    history: AgentStateView,
    seed: Option<MessageView>,
    repairs: Seq<MessageView>,
    message: IncomingView,
    now: u64,
)
    ensures
        ({
            let after = components::applied_all(
                state,
                seeding(history, seed, repairs, message, now).events,
            );
            &&& history.log.is_prefix_of(after.log)
            &&& history.history.is_prefix_of(after.history)
            &&& after.inbox == history.inbox.push(message)
        }),
{
    let events = seeding(history, seed, repairs, message, now).events;
    let first = seq![AgentDomainEventView::Seeded { state: history, seed }];
    let adopted = components::applied_all(state, first);
    assert(first.drop_last() =~= Seq::<AgentDomainEventView>::empty());
    assert(components::applied_all(state, first.drop_last()) == state);
    assert(adopted == seeded(history, seed));
    lemma_inputs_only_append(adopted, repairs);
    components::law_replay_agrees_with_live_handling(state, first, as_inputs(repairs));
    let repaired = components::applied_all(adopted, as_inputs(repairs));
    assert(events.drop_last() =~= first + as_inputs(repairs));
    assert(events.last() == AgentDomainEventView::Received { item: message, at_ms: now });
    let after = components::applied(repaired, events.last());
    assert(components::applied_all(state, events) == after);
    assert(repaired.log.is_prefix_of(after.log));
    assert(repaired.history.is_prefix_of(after.history));
    assert(history.log.is_prefix_of(adopted.log));
    assert(history.history.is_prefix_of(adopted.history));
}

/// An adoption is one write, kept with a snapshot: the history first, with its
/// seed, then a result for each call it left open, in order, and at the end
/// the message that waits.
pub proof fn law_an_adoption_is_one_write(
    history: AgentStateView,
    seed: Option<MessageView>,
    repairs: Seq<MessageView>,
    message: IncomingView,
    now: u64,
)
    ensures
        ({
            let effect = seeding(history, seed, repairs, message, now);
            &&& effect.snapshot
            &&& effect.events.len() == repairs.len() + 2
            &&& effect.events[0] == (AgentDomainEventView::Seeded { state: history, seed })
            &&& forall|i: int|
                0 <= i < repairs.len() ==> (#[trigger] effect.events[i + 1]) == (
                AgentDomainEventView::InputMessage { message: repairs[i] })
            &&& effect.events.last() == (AgentDomainEventView::Received {
                item: message,
                at_ms: now,
            })
        }),
{
}

/// A history is adopted only by an agent that nothing was said to and nothing
/// waits for.
pub proof fn law_only_an_untouched_agent_adopts(state: AgentStateView)
    ensures
        is_seeded(state) <==> !(state.log.len() == 0 && state.inbox.len() == 0),
{
}

/// A summary that was taken is recorded under the request it answers, for the
/// sub sessions that asked, and only then do the requests leave the queue.
pub proof fn law_a_summary_is_recorded_before_its_requests_leave(
    consumed: Seq<Seq<char>>,
    sub_sessions: Seq<SessionId>,
    result: Result<Seq<char>, Seq<char>>,
    usage: Option<UsageView>,
    now: u64,
)
    ensures
        summary_events(consumed, sub_sessions, result, usage, now) == seq![
            AgentDomainEventView::SeedSummaryTaken {
                request_id: text::joined(consumed, ":"@),
                sub_sessions,
                result,
                usage,
                at_ms: now,
            },
            AgentDomainEventView::Consumed { ids: consumed, at_ms: now },
        ],
{
}

/// A summary counts only for the open step that asked for it: the same marker
/// and the same request.
pub proof fn law_a_summary_counts_for_its_own_step(
    state: AgentStateView,
    marker_seq: u64,
    consumed: Seq<Seq<char>>,
)
    ensures
        summary_is_open(state, marker_seq, consumed) <==> (state.open_step() matches Some(
            (open, StepKindView::SeedSummary { request_id }),
        ) && open == marker_seq && request_id == text::joined(consumed, ":"@)),
{
}

} // verus!
