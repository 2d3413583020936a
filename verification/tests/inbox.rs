//! The queue rule: what merges, what waits, and what a park does and does not
//! survive.

use horsie_agent::context::AskedQuestion;
use horsie_agent::ids::SessionId;
use horsie_agent::inbox::{
    answered_turn, drain, queued_turn, AnswerError, AskAnswer, Incoming, Summarise,
    ABANDONED_ASK_RESULT,
};
use horsie_agent::model::SubAgentResultPart;

fn user(id: &str, text: &str) -> Incoming {
    Incoming::User { id: id.to_string(), text: text.to_string() }
}

fn compact(id: &str, instructions: Option<&str>) -> Incoming {
    Incoming::Compact {
        id: id.to_string(),
        instructions: instructions.map(ToString::to_string),
    }
}

#[test]
fn a_compact_contributes_no_text_to_the_turn() {
    let turn = drain(&[compact("c1", Some("keep the migration details"))]);
    assert_eq!(turn.message, None);
    assert_eq!(
        turn.summarise,
        Some(Summarise::Compact(Some("keep the migration details".to_string())))
    );
    assert_eq!(turn.consumed, vec!["c1".to_string()]);
}

#[test]
fn a_bare_compact_is_some_none_not_none() {
    let turn = drain(&[compact("c1", None)]);
    assert_eq!(
        turn.summarise,
        Some(Summarise::Compact(None)),
        "`Compact(None)` is a compaction with no focus; `None` is no \
         summarisation at all, and the two decide different things"
    );
}

#[test]
fn a_compact_queued_beside_a_message_keeps_both() {
    let turn = drain(&[compact("c1", None), user("u1", "and now do this")]);
    assert_eq!(turn.message.as_deref(), Some("and now do this"));
    assert_eq!(turn.summarise, Some(Summarise::Compact(None)));
    assert_eq!(turn.consumed, vec!["c1".to_string(), "u1".to_string()]);
}

#[test]
fn several_queued_compactions_collapse_to_the_newest() {
    let turn = drain(&[
        compact("c1", Some("first ask")),
        compact("c2", Some("second ask")),
    ]);
    assert_eq!(
        turn.summarise,
        Some(Summarise::Compact(Some("second ask".to_string())))
    );
    assert_eq!(
        turn.consumed,
        vec!["c1".to_string(), "c2".to_string()],
        "both are still consumed — neither is owed an answer twice"
    );
}

#[test]
fn a_turn_with_no_compact_says_so() {
    assert_eq!(drain(&[user("u1", "hello")]).summarise, None);
}

fn sub_session_item(id: &str, sub_session: SessionId) -> Incoming {
    Incoming::SubSession { id: id.to_string(), sub_session }
}

/// The id whose sixteen bytes are all this one.
fn from_byte(byte: u8) -> SessionId {
    SessionId(u128::from_be_bytes([byte; 16]))
}

#[test]
fn a_sub_session_contributes_no_text_to_the_turn() {
    let sub_session = from_byte(3);
    let turn = drain(&[sub_session_item("f1", sub_session)]);
    assert_eq!(turn.message, None);
    assert_eq!(turn.summarise, Some(Summarise::SubSession(vec![sub_session])));
    assert_eq!(turn.consumed, vec!["f1".to_string()]);
}

#[test]
fn sub_sessions_queued_together_share_one_summary() {
    let (a, b) = (from_byte(1), from_byte(2));
    let turn = drain(&[sub_session_item("f1", a), sub_session_item("f2", b)]);
    assert_eq!(turn.summarise, Some(Summarise::SubSession(vec![a, b])));
}

#[test]
fn a_sub_session_wins_over_a_compaction_queued_after_it() {
    let sub_session = from_byte(4);
    let turn = drain(&[sub_session_item("f1", sub_session), compact("c1", None)]);
    assert_eq!(turn.summarise, Some(Summarise::SubSession(vec![sub_session])));
    assert_eq!(
        turn.consumed,
        vec!["f1".to_string(), "c1".to_string()],
        "both are still consumed — the queue is drained whole"
    );
}

fn report(id: &str, label: &str, text: &str) -> Incoming {
    Incoming::SubAgent {
        id: id.to_string(),
        part: Box::new(SubAgentResultPart {
            subagent_id: id.to_string(),
            label: label.to_string(),
            status: "completed".to_string(),
            text: text.to_string(),
            spawned_at_ms: 0,
            ended_at_ms: 0,
        }),
    }
}

fn timer(id: &str, message: &str) -> Incoming {
    Incoming::Timer { id: id.to_string(), message: message.to_string() }
}

fn asking(id: &str, question: &str) -> AskedQuestion {
    AskedQuestion {
        tool_call_id: Some(id.to_string()),
        question: question.to_string(),
        choices: vec![],
        multiple: false,
    }
}

#[test]
fn an_empty_queue_starts_nothing() {
    assert_eq!(queued_turn(&[], &[]), None);
}

#[test]
fn one_message_becomes_a_turn_that_consumes_it() {
    let turn = queued_turn(&[user("m1", "hello")], &[]).unwrap();
    assert_eq!(turn.message.as_deref(), Some("hello"));
    assert_eq!(turn.consumed, vec!["m1".to_string()]);
}

#[test]
fn several_messages_merge_into_one_turn() {
    let turn = queued_turn(&[user("m1", "a"), user("m2", "b")], &[]).unwrap();
    assert_eq!(turn.message.as_deref(), Some("a\n\nb"));
    assert_eq!(turn.consumed.len(), 2);
}

#[test]
fn a_report_rides_a_turn_without_joining_its_text() {
    let turn = queued_turn(
        &[user("m1", "and the lockfile"), report("s1", "audit", "3 stale")],
        &[],
    )
    .unwrap();
    assert_eq!(turn.message.as_deref(), Some("and the lockfile"));
    assert_eq!(turn.subagent_results.len(), 1);
    assert_eq!(turn.subagent_results[0].text, "3 stale");
}

#[test]
fn a_report_only_turn_has_no_message() {
    let turn = queued_turn(&[report("s1", "audit", "3 stale")], &[]).unwrap();
    assert_eq!(turn.message, None);
    assert_eq!(turn.subagent_results.len(), 1);
}

#[test]
fn a_message_overrides_a_park_and_abandons_its_questions() {
    let turn = queued_turn(&[user("m1", "never mind")], &[asking("call-1", "which?")]).unwrap();
    assert_eq!(turn.message.as_deref(), Some("never mind"));
    assert_eq!(turn.results.len(), 1);
    assert_eq!(turn.results[0].tool_call_id, "call-1");
    assert_eq!(turn.results[0].output, ABANDONED_ASK_RESULT);
    assert!(turn.results[0].is_error);
    assert!(
        turn.answered.is_empty(),
        "abandoning is not answering — answers come through `answered_turn`"
    );
}

#[test]
fn a_report_waits_out_a_park_instead_of_overriding_it() {
    let asks = [asking("call-1", "which?")];
    assert_eq!(queued_turn(&[report("s1", "audit", "done")], &asks), None);
    assert_eq!(queued_turn(&[timer("t1", "check now")], &asks), None);
}

#[test]
fn a_message_releases_the_reports_queued_beside_it() {
    let turn = queued_turn(
        &[report("s1", "audit", "done"), user("m1", "never mind")],
        &[asking("call-1", "which?")],
    )
    .unwrap();
    assert_eq!(turn.consumed, vec!["s1".to_string(), "m1".to_string()]);
    assert_eq!(turn.subagent_results.len(), 1);
}

#[test]
fn a_timer_wake_is_the_turns_text() {
    let turn = queued_turn(&[timer("t1", "re-check the build")], &[]).unwrap();
    assert_eq!(turn.message.as_deref(), Some("re-check the build"));
}

#[test]
fn answering_nothing_pending_is_refused() {
    let err = answered_turn(&[], &[], vec![]).unwrap_err();
    assert_eq!(err, AnswerError::NothingPending);
    assert_eq!(err.message(), "this agent is not waiting on an answer");
}

#[test]
fn a_partial_answer_set_is_refused() {
    let asks = [asking("call-1", "which?"), asking("call-2", "which model?")];
    let err = answered_turn(
        &[],
        &asks,
        vec![AskAnswer { tool_call_id: "call-1".into(), text: "main".into() }],
    )
    .unwrap_err();
    assert_eq!(
        err,
        AnswerError::Incomplete {
            missing: vec!["call-2".to_string()],
            unexpected: vec![],
        }
    );
    assert_eq!(
        err.message(),
        "every pending question must be answered together (missing: [call-2]; not pending: [])"
    );
}

#[test]
fn an_answer_for_a_call_that_is_not_pending_is_refused() {
    let asks = [asking("call-1", "which?")];
    let err = answered_turn(
        &[],
        &asks,
        vec![
            AskAnswer { tool_call_id: "call-1".into(), text: "main".into() },
            AskAnswer { tool_call_id: "call-9".into(), text: "who asked?".into() },
        ],
    )
    .unwrap_err();
    assert_eq!(
        err,
        AnswerError::Incomplete {
            missing: vec![],
            unexpected: vec!["call-9".to_string()],
        }
    );
}

#[test]
fn a_complete_answer_set_carries_the_queue_with_it() {
    let asks = [asking("call-1", "which?")];
    let turn = answered_turn(
        &[report("s1", "audit", "3 stale")],
        &asks,
        vec![AskAnswer { tool_call_id: "call-1".into(), text: "main".into() }],
    )
    .unwrap();
    assert_eq!(turn.answered, vec!["call-1".to_string()]);
    assert_eq!(turn.results.len(), 1);
    assert!(!turn.results[0].is_error);
    assert_eq!(turn.results[0].output, "main");
    assert_eq!(turn.consumed, vec!["s1".to_string()]);
    assert_eq!(turn.subagent_results.len(), 1);
}

/// A compaction queued before a branch yields to it as well.
#[test]
fn a_sub_session_wins_whichever_came_first() {
    let turn = drain(&[compact("c1", None), sub_session_item("f1", from_byte(9))]);
    assert_eq!(turn.summarise, Some(Summarise::SubSession(vec![from_byte(9)])));
}

/// What an item is called, whether a person wrote it, and what it says.
#[test]
fn an_item_says_what_it_is() {
    assert_eq!(user("m1", "a").id(), "m1");
    assert!(user("m1", "a").is_user());
    assert_eq!(user("m1", "a").text(), Some("a"));
    assert!(!timer("t1", "x").is_user());
    assert_eq!(report("s1", "l", "t").text(), None);
    let on = Incoming::Continue { id: "k".into(), reason: "go on".into() };
    assert_eq!(on.text(), Some("go on"));
}
