//! The tools an agent's own components answer.

use horsie_agent::commands::{TaskListCommand, TimerCommand};
use horsie_agent::component::{CommandEffect, RoutedToolCall};
use horsie_agent::components::task_list::TaskLists;
use horsie_agent::components::timers::{execute_timer_tool, Sleep, TimerOutcome, Timers};
use horsie_agent::components::AgentLoop;
use horsie_agent::components::queue::inbox::Incoming;
use horsie_agent::events::{AgentDomainEvent, StepKind};
use horsie_agent::json::{Json, Number};
use horsie_agent::model::{ContentPart, Message, Role, ToolCallError, ToolUse, Usage};
use horsie_agent::state::AgentState;
use horsie_agent::timers::TimerId;

/// The JSON this text spells.
fn json(text: &str) -> Json {
    convert(&serde_json::from_str(text).expect("valid JSON"))
}

fn convert(value: &serde_json::Value) -> Json {
    match value {
        serde_json::Value::Null => Json::Null,
        serde_json::Value::Bool(b) => Json::Bool(*b),
        serde_json::Value::Number(n) => Json::Number(match (n.as_u64(), n.as_i64()) {
            (Some(n), _) => Number::PosInt(n),
            (None, Some(n)) => Number::NegInt(n),
            (None, None) => Number::Fraction(n.to_string()),
        }),
        serde_json::Value::String(s) => Json::String(s.clone()),
        serde_json::Value::Array(items) => Json::Array(items.iter().map(convert).collect()),
        serde_json::Value::Object(members) => Json::Object(
            members
                .iter()
                .map(|(name, value)| (name.clone(), convert(value)))
                .collect(),
        ),
    }
}

const NOW: u64 = 1_000_000;

/// An agent whose open step made the call `c1`.
fn calling() -> AgentState {
    AgentLoop::apply_all(
        AgentState::new(),
        vec![
            AgentDomainEvent::StepStarted { kind: StepKind::Agent },
            AgentDomainEvent::MessageComplete {
                message: Message {
                    id: "m".into(),
                    role: Role::Assistant,
                    parts: vec![ContentPart::ToolUse(ToolUse {
                        id: "c1".into(),
                        name: "set_timer".into(),
                        input: Json::Null,
                    })],
                    created_at_ms: NOW,
                },
                usage: Usage { input_tokens: 1, output_tokens: 1 },
            },
        ],
    )
}

fn call(name: &str, input: &str) -> RoutedToolCall {
    RoutedToolCall { tool_call_id: "c1".into(), name: name.into(), input: json(input) }
}

fn recurring() -> &'static str {
    "{\"kind\": \"recurring\", \"after_secs\": 60, \"message\": \"look\"}"
}

fn armed() -> AgentState {
    let run = execute_timer_tool(
        &calling(),
        "set_timer",
        &json(recurring()),
        TimerId("t".into()),
        NOW,
    )
    .expect("armed");
    assert_eq!(run.sleep_secs, Some(60));
    assert_eq!(run.value, json("{\"timer_id\": \"t\"}"));
    AgentLoop::apply_all(calling(), run.events)
}

#[test]
fn a_timer_is_armed_listed_and_cancelled() {
    let state = armed();
    assert!(state.has_timers());
    let listed =
        execute_timer_tool(&state, "list_timers", &json("{}"), TimerId("x".into()), NOW).expect("listed");
    let Json::Array(views) = listed.value else {
        panic!("expected a list");
    };
    assert_eq!(views.len(), 1);
    assert!(listed.events.is_empty());

    let gone = execute_timer_tool(
        &state,
        "cancel_timer",
        &json("{\"id\": \"other\"}"),
        TimerId("x".into()),
        NOW,
    )
    .expect("an answer");
    assert!(gone.events.is_empty(), "cancelling nothing is not a fact");
    let cancelled = execute_timer_tool(
        &state,
        "cancel_timer",
        &json("{\"all\": true}"),
        TimerId("x".into()),
        NOW,
    )
    .expect("an answer");
    let state = AgentLoop::apply_all(state, cancelled.events);
    assert!(!state.has_timers());
    assert_eq!(Timers::timer_fired(&state, &TimerId("t".into()), NOW), (CommandEffect::none(), None));
}

#[test]
fn a_bad_timer_call_is_refused() {
    let refused = |name: &str, input: &str| {
        execute_timer_tool(&calling(), name, &json(input), TimerId("t".into()), NOW)
            .expect_err("refused")
    };
    assert_eq!(
        refused("nope", "{}"),
        ToolCallError::InvalidInput("no tool named 'nope'".into())
    );
    assert!(matches!(refused("set_timer", "{}"), ToolCallError::InvalidInput(_)));
    assert!(matches!(refused("cancel_timer", "{}"), ToolCallError::InvalidInput(_)));
}

#[test]
fn a_firing_queues_a_wake_and_sleeps_again() {
    let (effect, again) = Timers::timer_fired(&armed(), &TimerId("t".into()), NOW);
    assert_eq!(again, Some(60));
    let [AgentDomainEvent::TimerFired { next_fire_at_unix_ms, .. }, AgentDomainEvent::Received { item: Incoming::Timer { id, message }, .. }] =
        effect.events.as_slice()
    else {
        panic!("expected a firing, got {:?}", effect.events);
    };
    assert_eq!(*next_fire_at_unix_ms, Some(NOW + 60_000));
    assert_eq!(id, "t:1");
    assert!(message.contains("look"));
}

#[test]
fn a_load_sleeps_for_what_is_left() {
    let sleeps = Timers::on_load(&armed(), NOW + 20_000);
    assert_eq!(sleeps, vec![Sleep { id: TimerId("t".into()), delay_ms: 40_000 }]);
    assert!(Timers::on_load(&AgentState::new(), NOW).is_empty());
}

#[test]
fn a_routed_timer_call_answers_only_an_open_call() {
    let (answer, sleep) =
        Timers::tool_call(&calling(), &call("set_timer", recurring()), TimerId("t".into()), NOW);
    assert_eq!(sleep, Some(60));
    assert!(matches!(answer.reply, Some(Ok(_))));
    assert_eq!(answer.effect.events.len(), 1);

    let closed = AgentLoop::apply(
        calling(),
        AgentDomainEvent::ToolComplete {
            tool_call_id: "c1".into(),
            output: "done".into(),
            is_error: false,
            artifacts: vec![],
            at_ms: NOW,
        },
    );
    let (answer, sleep) =
        Timers::tool_call(&closed, &call("set_timer", recurring()), TimerId("t".into()), NOW);
    assert_eq!(sleep, None);
    assert_eq!(answer.reply, None, "no reply is the refusal");
    assert!(answer.effect.events.is_empty());
}

#[test]
fn a_routed_task_list_call_answers_with_the_list_it_records() {
    let answer = TaskLists::tool_call(
        &calling(),
        &call("task_list", "{\"action\": \"create\", \"tasks\": [\"a\"]}"),
        NOW,
    );
    let Some(Ok(Json::String(told))) = &answer.reply else {
        panic!("expected an answer, got {:?}", answer.reply);
    };
    assert!(told.contains("[ ] 1. a"));
    let state = AgentLoop::apply_all(calling(), answer.effect.events);
    assert_eq!(state.task_list().render(), *told);

    let refused = TaskLists::tool_call(&calling(), &call("task_list", "{}"), NOW);
    assert!(matches!(refused.reply, Some(Err(ToolCallError::InvalidInput(_)))));
    assert!(refused.effect.events.is_empty());
}

#[test]
fn a_timer_command_answers_or_fires() {
    let arming = TimerCommand::ToolCall(call("set_timer", recurring()));
    let outcome = Timers::handle(&arming, &calling(), TimerId("t".into()), NOW);
    let TimerOutcome::Answered { answer, sleep_secs } = outcome else {
        panic!("expected an answer, got {outcome:?}");
    };
    assert_eq!(answer.reply, Some(Ok(json("{\"timer_id\": \"t\"}"))));
    assert_eq!(sleep_secs, Some(60));

    let elapsed = TimerCommand::TimerFired { id: TimerId("t".into()) };
    let outcome = Timers::handle(&elapsed, &armed(), TimerId("unused".into()), NOW);
    let TimerOutcome::Fired { effect, sleep_secs } = outcome else {
        panic!("expected a firing, got {outcome:?}");
    };
    assert_eq!(effect.events.len(), 2);
    assert_eq!(sleep_secs, Some(60));
}

#[test]
fn a_task_list_command_is_a_tool_call() {
    let asked = TaskListCommand::ToolCall(call("task_list", "{\"action\": \"list\"}"));
    let answer = TaskLists::handle(&asked, &calling(), NOW);
    assert!(matches!(answer.reply, Some(Ok(Json::String(_)))));
    assert_eq!(answer.effect.events.len(), 1);
}
