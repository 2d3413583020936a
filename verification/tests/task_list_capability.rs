//! The task list an agent keeps for itself.

use horsie_agent::capabilities::state::{CapabilityEvent, CapabilityState};
use horsie_agent::capabilities::task_list::{Changed, TaskListCapability, TASK_LIST_TOOL};
use horsie_agent::capabilities::{Capabilities, Capability};
use horsie_agent::json::{Json, Number};
use horsie_agent::runners::AgentFacts;
use horsie_agent::task_list::TaskListState;

/// The JSON this text spells.
fn json(text: &str) -> Json {
    convert(&serde_json::from_str(text).expect("valid JSON"))
}

fn convert(value: &serde_json::Value) -> Json {
    match value {
        serde_json::Value::Null => Json::Null,
        serde_json::Value::Bool(b) => Json::Bool(*b),
        serde_json::Value::Number(n) => Json::Number(match (n.as_u64(), n.as_i64()) {
            (Some(n), _) => Number::PosInt(n),
            (None, Some(n)) => Number::NegInt(n),
            (None, None) => Number::Fraction(n.to_string()),
        }),
        serde_json::Value::String(s) => Json::String(s.clone()),
        serde_json::Value::Array(items) => Json::Array(items.iter().map(convert).collect()),
        serde_json::Value::Object(members) => Json::Object(
            members
                .iter()
                .map(|(name, value)| (name.clone(), convert(value)))
                .collect(),
        ),
    }
}

/// What loading an agent that found nothing leaves behind.
fn facts() -> AgentFacts {
    AgentFacts { agents: None }
}

/// The names one capability adds to an empty toolbox.
fn advertised_by(cap: &Capability, facts: &AgentFacts) -> Vec<String> {
    cap.layer(vec![], facts).into_iter().map(|s| s.name).collect()
}

fn list() -> TaskListState {
    TaskListState::new()
}

fn agent(list: TaskListState) -> CapabilityState {
    let mut state = CapabilityState::new(Capabilities::new(vec![]));
    state.task_list = list;
    state
}

fn fold(list: TaskListState, snapshot: TaskListState) -> TaskListState {
    agent(list).apply(CapabilityEvent::TaskListChanged { snapshot }).task_list
}

fn answer(changed: Changed) -> String {
    match changed {
        Changed::Changed { told, .. } => told,
        Changed::Refused(reason) => panic!("expected an answer, got a refusal: {reason}"),
    }
}

fn refusal(changed: Changed) -> String {
    match changed {
        Changed::Refused(reason) => reason,
        Changed::Changed { told, .. } => panic!("expected a refusal, got an answer: {told}"),
    }
}

#[test]
fn it_advertises_the_task_list_tool() {
    assert_eq!(
        advertised_by(&Capability::TaskList(TaskListCapability::new()), &facts()),
        vec![TASK_LIST_TOOL]
    );
}

#[test]
fn creating_a_list_journals_it_and_answers_with_it() {
    let changed = TaskListCapability::changed(
        &list(),
        &json("{\"action\": \"create\", \"tasks\": [\"a\", \"b\"]}"),
    );
    let Changed::Changed { snapshot, told } = changed else {
        panic!("the create was refused");
    };
    assert!(told.contains("[ ] 1. a"));
    let folded = fold(list(), snapshot);
    assert_eq!(folded.tasks().len(), 2, "one snapshot, not a delta");
    assert_eq!(folded.tasks()[1].content, "b");
}

#[test]
fn a_status_update_lands_on_the_folded_list() {
    let created = TaskListCapability::changed(
        &list(),
        &json("{\"action\": \"create\", \"tasks\": [\"a\", \"b\"]}"),
    );
    let Changed::Changed { snapshot, .. } = created else {
        panic!("the create was refused");
    };
    let list = fold(list(), snapshot);
    let updated = TaskListCapability::changed(
        &list,
        &json("{\"action\": \"update_status\", \"ids\": [1], \"status\": \"completed\"}"),
    );
    let Changed::Changed { snapshot, told } = updated else {
        panic!("the update was refused");
    };
    assert!(told.contains("Tasks (1/2 done)"));
    let list = fold(list, snapshot);
    assert!(TaskListCapability::carried_state(&list).unwrap().contains("Tasks (1/2 done)"));
}

#[test]
fn an_unknown_id_is_refused_and_journals_nothing() {
    let changed = TaskListCapability::changed(
        &list(),
        &json("{\"action\": \"update_status\", \"ids\": [9], \"status\": \"completed\"}"),
    );
    assert!(refusal(changed).contains("unknown task id"));
}

#[test]
fn an_unreadable_action_is_refused() {
    let changed =
        TaskListCapability::changed(&list(), &json("{\"action\": \"delete_everything\"}"));
    assert!(refusal(changed).contains("unknown action"));
}

#[test]
fn listing_answers_with_the_current_list() {
    let created = TaskListCapability::changed(
        &list(),
        &json("{\"action\": \"create\", \"tasks\": [\"a\"]}"),
    );
    let Changed::Changed { snapshot, .. } = created else {
        panic!("the create was refused");
    };
    let list = fold(list(), snapshot);
    assert!(answer(TaskListCapability::changed(&list, &json("{\"action\": \"list\"}")))
        .contains("[ ] 1. a"));
}

#[test]
fn an_empty_list_carries_nothing() {
    assert_eq!(TaskListCapability::carried_state(&list()), None);
}

#[test]
fn a_copied_agent_keeps_its_list() {
    let created = TaskListCapability::changed(
        &list(),
        &json("{\"action\": \"create\", \"tasks\": [\"ship it\"]}"),
    );
    let Changed::Changed { snapshot, .. } = created else {
        panic!("the create was refused");
    };
    let back = agent(fold(list(), snapshot)).clone();
    assert_eq!(
        back.task_list.tasks()[0].content,
        "ship it",
        "a copy that lost the list leaves the agent holding a plan it cannot see"
    );
}

/// What was told is what is carried.
#[test]
fn what_was_told_is_carried() {
    let created = TaskListCapability::changed(
        &list(),
        &json("{\"action\": \"create\", \"tasks\": [\"a\", \"b\"]}"),
    );
    let Changed::Changed { snapshot, told } = created else {
        panic!("the create was refused");
    };
    assert_eq!(TaskListCapability::carried_state(&snapshot), Some(told));
}
