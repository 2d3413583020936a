//! What an agent is told again when its history is folded away.

use horsie_agent::carried_state::{
    has_outstanding_children, render_carried_state, running_subagents,
};
use horsie_agent::components::task_list::TaskListPart;
use horsie_agent::components::{keep_tasks, keep_timers};
use horsie_agent::context::AskedQuestion;
use horsie_agent::model::{LifecycleEvent, SubAgentLifecycle};
use horsie_agent::state::{AgentLogBody, AgentState};
use horsie_agent::task_list::{TaskListAction, TaskListState};
use horsie_agent::timers::{TimerId, TimerKind, TimerRecord, TimerState};

fn note_subagent(state: &mut AgentState, id: &str, label: &str, status: &str) {
    state.push(
        1,
        AgentLogBody::Lifecycle(LifecycleEvent::SubAgent(SubAgentLifecycle {
            id: id.into(),
            label: label.into(),
            status: status.into(),
        })),
    );
}

fn with_tasks(state: &mut AgentState, tasks: &[&str]) {
    let mut list = TaskListState::new();
    list.apply(TaskListAction::Create {
        tasks: tasks.iter().map(|t| (*t).to_string()).collect(),
    })
    .expect("the fixture's task list is valid");
    keep_tasks(&mut state.parts, TaskListPart::of(list));
}

fn with_timer(state: &mut AgentState, record: TimerRecord) {
    let mut timers = TimerState::new();
    timers.arm(record);
    keep_timers(&mut state.parts, timers);
}

#[test]
fn carried_state_names_every_task_timer_and_ask_verbatim() {
    let mut state = AgentState::new();
    with_tasks(&mut state, &["migrate the journal", "delete the importer"]);
    with_timer(
        &mut state,
        TimerRecord {
            id: TimerId("timer-7".into()),
            label: "nightly".into(),
            message: "re-run the sweep".into(),
            kind: TimerKind::Recurring,
            interval_secs: 86_400,
            fire_at_unix_ms: 1_700_000_000_000,
            fire_count: 2,
        },
    );
    state.asks.push(AskedQuestion {
        tool_call_id: Some("tc-42".into()),
        question: "Which database should this point at?".into(),
        choices: vec![],
        multiple: false,
    });

    let rendered = render_carried_state(&state);

    for needle in [
        "migrate the journal",
        "delete the importer",
        "nightly",
        "timer-7",
        "re-run the sweep",
        "1700000000000",
        "tc-42",
        "Which database should this point at?",
    ] {
        assert!(
            rendered.contains(needle),
            "carried state lost {needle:?}:\n{rendered}"
        );
    }
    assert!(rendered.contains("1. migrate the journal"));
    assert!(rendered.contains("2. delete the importer"));
}

#[test]
fn a_session_with_nothing_to_carry_renders_nothing() {
    assert_eq!(render_carried_state(&AgentState::new()), "");
}

#[test]
fn only_subagents_still_running_are_carried() {
    let mut state = AgentState::new();
    for (id, status) in [("a1", "running"), ("a2", "completed"), ("a1", "running")] {
        note_subagent(&mut state, id, &format!("{id}-label"), status);
    }
    let rendered = render_carried_state(&state);
    assert!(rendered.contains("a1"), "{rendered}");
    assert!(
        !rendered.contains("a2"),
        "a finished subagent is not something to wait for: {rendered}"
    );
    assert_eq!(rendered, "Subagents still running:\n- a1 (a1-label)");
}

#[test]
fn a_subagent_that_finished_after_starting_is_not_carried() {
    let mut state = AgentState::new();
    for status in ["running", "completed"] {
        note_subagent(&mut state, "a1", "auditor", status);
    }
    assert!(!render_carried_state(&state).contains("auditor"));
    assert!(!has_outstanding_children(&state));
}

/// Workers are listed by id, each with the newest label it was seen under.
#[test]
fn workers_are_listed_by_id() {
    let mut state = AgentState::new();
    note_subagent(&mut state, "b", "second", "running");
    note_subagent(&mut state, "a", "old", "running");
    note_subagent(&mut state, "a", "new", "running");
    assert_eq!(
        running_subagents(&state.log),
        vec![
            ("a".to_string(), "new".to_string()),
            ("b".to_string(), "second".to_string())
        ]
    );
    assert!(has_outstanding_children(&state));
}

/// A question whose call was never recorded is still carried.
#[test]
fn a_question_without_a_call_is_carried() {
    let mut state = AgentState::new();
    state.asks.push(AskedQuestion {
        tool_call_id: None,
        question: "which?".into(),
        choices: vec![],
        multiple: false,
    });
    assert_eq!(
        render_carried_state(&state),
        "Questions you are waiting on an answer to:\n- [unknown call] which?"
    );
}
