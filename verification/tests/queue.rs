//! What the queue offers next, and what taking it leaves.

use horsie_agent::components::queue::inbox::{
    answered_turn, drain, queued_offer, AnswerError, AskAnswer, Incoming, Offer,
};
use horsie_agent::components::AgentLoop;
use horsie_agent::context::AskedQuestion;
use horsie_agent::events::AgentDomainEvent;
use horsie_agent::ids::SessionId;
use horsie_agent::model::{ArtifactRef, LifecycleEvent, SubAgentResultPart};
use horsie_agent::state::{AgentLogBody, AgentState};

fn user(id: &str, text: &str) -> Incoming {
    Incoming::User {
        id: id.into(),
        text: text.into(),
        artifacts: vec![ArtifactRef { id: format!("{id}-file") }],
    }
}

fn compact(id: &str, instructions: Option<&str>) -> Incoming {
    Incoming::Compact { id: id.into(), instructions: instructions.map(str::to_string) }
}

fn summary(id: &str, sub_session: u128) -> Incoming {
    Incoming::SubSession { id: id.into(), sub_session: SessionId(sub_session) }
}

fn report(id: &str) -> Incoming {
    Incoming::SubAgent {
        id: id.into(),
        part: Box::new(SubAgentResultPart {
            subagent_id: id.into(),
            label: "l".into(),
            status: "completed".into(),
            text: "t".into(),
            spawned_at_ms: 0,
            ended_at_ms: 0,
        }),
    }
}

fn asking(id: &str) -> AskedQuestion {
    AskedQuestion {
        tool_call_id: Some(id.into()),
        question: "which?".into(),
        choices: vec![],
        multiple: false,
    }
}

#[test]
fn nothing_queued_offers_nothing() {
    assert_eq!(queued_offer(&[], &[]), None);
}

#[test]
fn a_summary_somebody_waits_on_goes_first() {
    let offer = queued_offer(
        &[compact("c", None), user("u", "hi"), summary("f", 7), summary("g", 8)],
        &[],
    );
    assert_eq!(
        offer,
        Some(Offer::Summary {
            consumed: vec!["f".into(), "g".into()],
            sub_sessions: vec![SessionId(7), SessionId(8)],
        })
    );
}

#[test]
fn a_compaction_goes_before_the_message_beside_it() {
    let offer = queued_offer(&[user("u", "hi"), compact("c", Some("a")), compact("d", None)], &[]);
    assert_eq!(
        offer,
        Some(Offer::Compact { consumed: vec!["c".into(), "d".into()], instructions: None }),
        "the newest instructions stand, even when they say nothing"
    );
}

#[test]
fn everything_else_is_one_input() {
    let Some(Offer::Input(turn)) = queued_offer(
        &[
            user("u", "a"),
            report("s"),
            Incoming::Timer { id: "t".into(), message: "b".into() },
            Incoming::Continue { id: "k".into(), reason: "c".into() },
        ],
        &[],
    ) else {
        panic!("expected an input");
    };
    assert_eq!(turn.consumed, vec!["u", "s", "t", "k"]);
    assert_eq!(turn.message.as_deref(), Some("a\n\nb\n\nc"));
    assert_eq!(turn.artifacts, vec![ArtifactRef { id: "u-file".into() }]);
    assert_eq!(turn.subagent_results.len(), 1);
    assert!(turn.results.is_empty());
}

#[test]
fn only_a_person_overrides_a_park() {
    let asks = [asking("call-1")];
    assert_eq!(queued_offer(&[report("s"), summary("f", 1)], &asks), None);
    let Some(Offer::Input(turn)) = queued_offer(&[report("s"), user("u", "never mind")], &asks)
    else {
        panic!("expected an input");
    };
    assert_eq!(turn.results.len(), 1);
    assert!(turn.results[0].is_error);
    assert!(turn.answered.is_empty());
}

#[test]
fn a_drain_leaves_slash_commands_queued() {
    let turn = drain(&[compact("c", None), user("u", "hi"), summary("f", 1)]);
    assert_eq!(turn.consumed, vec!["u"]);
}

#[test]
fn answers_must_cover_the_questions_exactly() {
    let answer = |id: &str| AskAnswer { tool_call_id: id.into(), text: "main".into() };
    let asks = [asking("a"), asking("b")];
    let Ok(turn) = answered_turn(&[report("s")], &asks, vec![answer("b"), answer("a")]) else {
        panic!("expected a turn");
    };
    assert_eq!(turn.answered, vec!["b", "a"]);
    assert_eq!(turn.consumed, vec!["s"]);
    assert_eq!(
        answered_turn(&[], &asks, vec![answer("a"), answer("z")]),
        Err(AnswerError::Incomplete { missing: vec!["b".into()], unexpected: vec!["z".into()] })
    );
    assert_eq!(answered_turn(&[], &[], vec![answer("a")]), Err(AnswerError::NothingPending));
}

#[test]
fn what_is_received_is_queued_and_what_is_taken_leaves() {
    let state = AgentLoop::apply_all(
        AgentState::new(),
        vec![
            AgentDomainEvent::Received { item: user("u", "hi"), at_ms: 3 },
            AgentDomainEvent::Received { item: report("s"), at_ms: 4 },
        ],
    );
    assert_eq!(state.pending_incoming().len(), 2);
    assert_eq!(
        state.log[0].body,
        AgentLogBody::Lifecycle(LifecycleEvent::MessageQueued { id: "u".into(), text: "hi".into() })
    );
    assert_eq!(state.log.len(), 1, "only a person's message is shown as queued");
    let state = AgentLoop::apply(
        state,
        AgentDomainEvent::Consumed { ids: vec!["u".into(), "other".into()], at_ms: 5 },
    );
    assert_eq!(state.pending_incoming().len(), 1);
    assert_eq!(state.pending_incoming()[0].id(), "s");
}

#[test]
fn a_turn_that_begins_ends_the_park() {
    let state = AgentLoop::apply_all(
        AgentState::new(),
        vec![
            AgentDomainEvent::AskRecorded { asks: vec![asking("a")], at_ms: 1 },
            AgentDomainEvent::Received { item: user("u", "hi"), at_ms: 2 },
        ],
    );
    assert_eq!(state.asks.len(), 1);
    assert!(state.queued_offer().is_some());
    let state = AgentLoop::apply(
        state,
        AgentDomainEvent::TurnBegan { consumed: vec!["u".into()], answered: vec![], at_ms: 3 },
    );
    assert!(state.asks.is_empty());
    assert!(state.pending_incoming().is_empty());
    assert_eq!(state.queued_offer(), None);
}
