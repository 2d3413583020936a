//! What holds across functions, on concrete values.

use horsie_agent::capabilities::budget::TokenBudgetCapability;
use horsie_agent::capabilities::state::{CapabilityEvent, CapabilityState};
use horsie_agent::capabilities::timers::TimersCapability;
use horsie_agent::capabilities::{Capabilities, Capability};
use horsie_agent::components::queue::inbox::Incoming;
use horsie_agent::components::usage::UsageState;
use horsie_agent::components::{default_parts, AgentLoop, ComponentState};
use horsie_agent::events::{AgentDomainEvent, StepKind};
use horsie_agent::ids::{AgentId, RunnerId, RunnerSet};
use horsie_agent::json::{Json, Number};
use horsie_agent::model::{CompactionTrigger, Message, ToolSpec, Usage};
use horsie_agent::runners::AgentFacts;
use horsie_agent::sorted::TextMap;
use horsie_agent::state::AgentState;
use horsie_agent::task_list::{TaskListAction, TaskListState, TaskStatus};
use horsie_agent::timers::{TimerId, TimerKind, TimerRecord, TimerState};

/// The JSON this text spells.
fn json(text: &str) -> Json {
    convert(&serde_json::from_str(text).expect("valid JSON"))
}

fn convert(value: &serde_json::Value) -> Json {
    match value {
        serde_json::Value::Null => Json::Null,
        serde_json::Value::Bool(b) => Json::Bool(*b),
        serde_json::Value::Number(n) => Json::Number(match (n.as_u64(), n.as_i64()) {
            (Some(n), _) => Number::PosInt(n),
            (None, Some(n)) => Number::NegInt(n),
            (None, None) => Number::Fraction(n.to_string()),
        }),
        serde_json::Value::String(s) => Json::String(s.clone()),
        serde_json::Value::Array(items) => Json::Array(items.iter().map(convert).collect()),
        serde_json::Value::Object(members) => Json::Object(
            members
                .iter()
                .map(|(name, value)| (name.clone(), convert(value)))
                .collect(),
        ),
    }
}

fn capability_events() -> Vec<CapabilityEvent> {
    vec![
        CapabilityEvent::AskUserAsked { call: "c1".into(), question: "which?".into() },
        CapabilityEvent::TitleAsked { call: "c2".into(), name: "n".into() },
        CapabilityEvent::TitleSet { call: "c2".into(), name: "n".into() },
        CapabilityEvent::AskUserAbandoned,
    ]
}

fn equipped() -> CapabilityState {
    CapabilityState::new(Capabilities::new(vec![Capability::Timers(TimersCapability)]))
}

#[test]
fn a_capability_journal_folds_in_parts() {
    let whole = equipped().apply_all(capability_events());
    let mut first = capability_events();
    let second = first.split_off(2);
    let parts = equipped().apply_all(first).apply_all(second);
    assert_eq!(whole, parts);
    assert_eq!(whole.capabilities, equipped().capabilities, "no fact changes the equipment");
}

fn agent_events() -> Vec<AgentDomainEvent> {
    vec![
        AgentDomainEvent::StepStarted { kind: StepKind::Agent },
        AgentDomainEvent::Received {
            item: Incoming::Timer { id: "t:1".into(), message: "m".into() },
            at_ms: 1,
        },
        AgentDomainEvent::MessageComplete {
            message: Message::assistant_text("m".into(), "hi".into(), 2),
            usage: Usage { input_tokens: 3, output_tokens: 4 },
        },
        AgentDomainEvent::RunComplete { iterations: 1, at_ms: 3 },
    ]
}

#[test]
fn a_replay_ends_where_the_live_run_did() {
    let replayed = AgentLoop::apply_all(AgentState::new(), agent_events());
    let mut live = AgentState::new();
    for event in agent_events() {
        live = AgentLoop::apply(live, event);
    }
    assert_eq!(replayed, live);
    let places: Vec<u64> = live.history.iter().map(|e| e.seq).collect();
    assert_eq!(places, vec![0, 1, 2, 3]);
}

#[test]
fn a_compaction_takes_nothing_out_of_the_transcript() {
    let before = AgentLoop::apply_all(AgentState::new(), agent_events());
    let shown = before.log.len();
    let after = AgentLoop::apply(
        AgentLoop::apply_all(AgentState::new(), agent_events()),
        AgentDomainEvent::Compacted {
            summary: "s".into(),
            carried_state: String::new(),
            retained_from_message_id: None,
            trigger: CompactionTrigger::Manual,
            instructions: None,
            tokens_before: 2,
            tokens_after: 1,
            usage: None,
            at_ms: 4,
        },
    );
    assert_eq!(&after.log[..shown], &before.log[..]);
    assert_eq!(after.log.len(), shown + 1);
}

#[test]
fn costs_are_banked_in_any_order() {
    let (a, b) = (
        Usage { input_tokens: 1, output_tokens: 2 },
        Usage { input_tokens: 30, output_tokens: 40 },
    );
    let mut one = UsageState::default();
    one.bank(&a);
    one.bank(&b);
    let mut other = UsageState::default();
    other.bank(&b);
    other.bank(&a);
    assert_eq!(one, other);
}

#[test]
fn a_capability_that_claims_nothing_adds_no_layer() {
    let inner = || {
        vec![ToolSpec { name: "bash".into(), description: String::new(), input_schema: "{}".into() }]
    };
    let facts = AgentFacts { agents: None };
    let budget = Capability::TokenBudget(TokenBudgetCapability::default());
    assert_eq!(budget.layer(inner(), &facts), inner());
}

fn listed(tasks: &[&str]) -> TaskListState {
    let mut list = TaskListState::new();
    list.apply(TaskListAction::Create { tasks: tasks.iter().map(|t| t.to_string()).collect() })
        .expect("a list");
    list
}

#[test]
fn a_new_list_counts_from_one_and_reading_it_changes_nothing() {
    let mut list = listed(&["a", "b", "c"]);
    let numbers: Vec<u64> = list.tasks().iter().map(|t| t.id).collect();
    assert_eq!(numbers, vec![1, 2, 3]);
    let before = list.clone();
    list.apply(TaskListAction::List).expect("read");
    assert_eq!(list, before);
}

#[test]
fn a_status_update_moves_no_task() {
    let mut list = listed(&["a", "b"]);
    list.apply(TaskListAction::UpdateStatus { ids: vec![2], status: TaskStatus::Completed })
        .expect("an update");
    let shown: Vec<(u64, &str)> =
        list.tasks().iter().map(|t| (t.id, t.content.as_str())).collect();
    assert_eq!(shown, vec![(1, "a"), (2, "b")]);
    assert_eq!(list.tasks()[0].status, TaskStatus::Pending);
    assert_eq!(list.tasks()[1].status, TaskStatus::Completed);
}

fn record(id: &str, kind: TimerKind) -> TimerRecord {
    TimerRecord {
        id: TimerId(id.into()),
        label: String::new(),
        message: "m".into(),
        kind,
        interval_secs: 60,
        fire_at_unix_ms: 1_000,
        fire_count: 0,
    }
}

#[test]
fn a_recurring_timer_keeps_its_place_and_a_one_shot_leaves() {
    let mut timers = TimerState::new();
    timers.arm(record("a", TimerKind::OneShot));
    timers.arm(record("b", TimerKind::Recurring));
    timers.fired(&TimerId("b".into()), Some(5_000));
    assert_eq!(timers.records().len(), 2);
    assert_eq!(timers.records()[1].fire_at_unix_ms, 5_000);
    assert_eq!(timers.records()[1].fire_count, 1);
    assert_eq!(timers.records()[0], record("a", TimerKind::OneShot));
    timers.fired(&TimerId("a".into()), None);
    assert!(timers.find(&TimerId("a".into())).is_none());
    timers.cancel(&timers.all_ids());
    assert!(timers.records().is_empty());
}

#[test]
fn only_the_plan_carries_into_a_branch() {
    let carried: Vec<bool> = default_parts().iter().map(|p| p.carried().is_some()).collect();
    let kinds: Vec<bool> =
        default_parts().iter().map(|p| matches!(p, ComponentState::TaskList(_))).collect();
    assert_eq!(carried, kinds);
}

#[test]
fn a_set_and_a_map_do_not_remember_how_they_were_filled() {
    let (mut a, mut b) = (RunnerSet::new(), RunnerSet::new());
    for id in [1u128, 2, 3] {
        a.insert(RunnerId(id));
    }
    for id in [3u128, 1, 2, 1] {
        b.insert(RunnerId(id));
    }
    assert_eq!(a, b);
    let (mut m, mut n): (TextMap<u64>, TextMap<u64>) = (TextMap::new(), TextMap::new());
    m.insert("x".into(), 1);
    m.insert("y".into(), 2);
    n.insert("y".into(), 9);
    n.insert("x".into(), 1);
    n.insert("y".into(), 2);
    assert_eq!(m, n);
}

#[test]
fn two_ids_are_never_written_the_same() {
    assert_ne!(AgentId(0x10).text(), AgentId(0x100).text());
    assert_eq!(AgentId(u128::MAX).text(), "ffffffff-ffff-ffff-ffff-ffffffffffff");
}

#[test]
fn a_list_is_inserted_after_a_task_or_at_the_end() {
    let mut list = listed(&["a", "b"]);
    let action = TaskListAction::from_input(
        &json("{\"action\": \"insert\", \"tasks\": [\"x\"], \"after\": 1}"),
    )
    .expect("an insert");
    list.apply(action).expect("inserted");
    let words: Vec<&str> = list.tasks().iter().map(|t| t.content.as_str()).collect();
    assert_eq!(words, vec!["a", "x", "b"]);
}
