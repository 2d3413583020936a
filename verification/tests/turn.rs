//! What one provider call says, and what an ending means.

use horsie_agent::commands::RunCommand;
use horsie_agent::component::{CommandEffect, StepPhase, StepRun, TurnCtx};
use horsie_agent::components::queue::inbox::Incoming;
use horsie_agent::components::turn::{
    Conclusion, LlmFailure, RunOutcome, RunReport, StepResponse, Turn, MAX_ITERATIONS, MAX_RESULT_NUDGES,
    REPEATED_CALL_ADVICE, RESULT_NUDGE,
};
use horsie_agent::components::AgentLoop;
use horsie_agent::context::AskedQuestion;
use horsie_agent::events::{AgentDomainEvent, RunEnd, StepFailure, StepKind, StopHookOutcome};
use horsie_agent::json::{Json, Number};
use horsie_agent::model::{
    ContentPart, LifecycleEvent, Message, Role, StopReason, StoppedCall, SubAgentLifecycle,
    ToolChoice, ToolUse, Usage,
};
use horsie_agent::params::AgentParams;
use horsie_agent::state::AgentState;
use horsie_agent::timers::{TimerId, TimerKind, TimerRecord};

/// The JSON this text spells.
fn json(text: &str) -> Json {
    convert(&serde_json::from_str(text).expect("valid JSON"))
}

fn convert(value: &serde_json::Value) -> Json {
    match value {
        serde_json::Value::Null => Json::Null,
        serde_json::Value::Bool(b) => Json::Bool(*b),
        serde_json::Value::Number(n) => Json::Number(match (n.as_u64(), n.as_i64()) {
            (Some(n), _) => Number::PosInt(n),
            (None, Some(n)) => Number::NegInt(n),
            (None, None) => Number::Fraction(n.to_string()),
        }),
        serde_json::Value::String(s) => Json::String(s.clone()),
        serde_json::Value::Array(items) => Json::Array(items.iter().map(convert).collect()),
        serde_json::Value::Object(members) => Json::Object(
            members
                .iter()
                .map(|(name, value)| (name.clone(), convert(value)))
                .collect(),
        ),
    }
}

const NOW: u64 = 1_000;

fn params() -> AgentParams {
    AgentParams {
        system_prompt: None,
        tools: None,
        thinking_effort: None,
        max_iterations: None,
        max_retries: 2,
        requires_result: false,
        park_on_outstanding_work: false,
    }
}

fn owing() -> AgentParams {
    AgentParams { requires_result: true, ..params() }
}

/// An agent with its own step open, at the first place in its history.
fn open() -> AgentState {
    AgentLoop::apply(AgentState::new(), AgentDomainEvent::StepStarted { kind: StepKind::Agent })
}

fn prepared() -> StepRun {
    let mut run = StepRun::new(true);
    run.ctx = Some(TurnCtx {
        specs: vec![],
        system_prompt: "be good".into(),
        budget: None,
        conversation_id: "c".into(),
        thinking_effort: None,
    });
    run
}

fn saying(text: &str) -> StepResponse {
    StepResponse {
        message: Message::assistant_text("m".into(), text.into(), NOW),
        fingerprint: String::new(),
        stop_reason: StopReason::EndTurn,
        usage: Usage { input_tokens: 10, output_tokens: 2 },
    }
}

fn calling(id: &str, tool: &str, fingerprint: &str) -> StepResponse {
    StepResponse {
        message: Message {
            id: "m".into(),
            role: Role::Assistant,
            parts: vec![ContentPart::ToolUse(ToolUse {
                id: id.into(),
                name: tool.into(),
                input: json("{}"),
            })],
            created_at_ms: NOW,
        },
        fingerprint: fingerprint.into(),
        stop_reason: StopReason::ToolUse,
        usage: Usage { input_tokens: 10, output_tokens: 2 },
    }
}

fn stopped(id: &str, tool: &str, input: &str) -> StoppedCall {
    StoppedCall { tool_call_id: id.into(), tool: tool.into(), input: json(input) }
}

fn armed(state: AgentState) -> AgentState {
    AgentLoop::apply(
        state,
        AgentDomainEvent::TimerArmed {
            record: TimerRecord {
                id: TimerId("t".into()),
                label: String::new(),
                message: "m".into(),
                kind: TimerKind::OneShot,
                interval_secs: 5,
                fire_at_unix_ms: NOW,
                fire_count: 0,
            },
            at_ms: NOW,
        },
    )
}

fn parked() -> CommandEffect {
    CommandEffect::persist(vec![
        AgentDomainEvent::Parked { at_ms: NOW },
        AgentDomainEvent::RunEnded { reason: RunEnd::Parked, at_ms: NOW },
    ])
    .and_snapshot()
}

#[test]
fn a_step_is_called_over_the_open_marker() {
    let mut turn = Turn::new();
    let mut run = prepared();
    run.pending_tool_choice = Some(ToolChoice::Required("submit_result".into()));
    let out = turn.run_step(&open(), &mut run, &params(), NOW);
    assert_eq!(out.effect, CommandEffect::none());
    let call = out.call.expect("a call is made");
    assert_eq!(call.marker_seq, 0);
    assert_eq!(call.delay_ms, None);
    assert_eq!(call.system_prompt, "be good");
    assert_eq!(call.tool_choice, ToolChoice::Required("submit_result".into()));
    assert_eq!(run.running, Some(StepPhase::CallingProvider));
    assert_eq!(run.pending_tool_choice, None, "a choice applies to exactly one turn");
}

#[test]
fn nothing_is_called_without_a_marker_or_a_context() {
    let mut run = prepared();
    let out = Turn::new().run_step(&AgentState::new(), &mut run, &params(), NOW);
    assert!(out.call.is_none());
    assert_eq!(run.running, None);
    let mut unprepared = StepRun::new(true);
    assert!(Turn::new().run_step(&open(), &mut unprepared, &params(), NOW).call.is_none());
}

#[test]
fn a_spent_turn_fails() {
    let mut turn = Turn::new();
    let mut run = prepared();
    let narrow = AgentParams { max_iterations: Some(1), ..params() };
    turn.handle_responded(&open(), &mut run, &narrow, calling("a", "bash", "x"), NOW);
    let out = turn.run_step(&open(), &mut run, &narrow, NOW);
    assert!(out.call.is_none());
    let [AgentDomainEvent::RunAborted { .. }, AgentDomainEvent::StepFailed { reason: StepFailure::Provider(said) }, AgentDomainEvent::RunEnded { reason: RunEnd::Failed { recoverable, terminal, .. }, .. }] =
        out.effect.events.as_slice()
    else {
        panic!("expected a failed turn, got {:?}", out.effect.events);
    };
    assert_eq!(said, "max iterations exceeded (max=1)");
    assert!(!*recoverable && !*terminal);
    assert_eq!(turn, Turn::new(), "a turn that ended has no bookkeeping");
    assert_eq!(MAX_ITERATIONS, 100);
}

#[test]
fn a_text_answer_ends_the_turn() {
    let mut turn = Turn::new();
    let mut run = prepared();
    let out = turn.handle_responded(&open(), &mut run, &params(), saying("done"), NOW);
    let [AgentDomainEvent::MessageComplete { usage, .. }, AgentDomainEvent::RunComplete { iterations, at_ms }] =
        out.effect.events.as_slice()
    else {
        panic!("expected a completed turn, got {:?}", out.effect.events);
    };
    assert_eq!(usage.input_tokens, 10);
    assert_eq!((*iterations, *at_ms), (1, NOW));
    assert!(!out.effect.snapshot);
}

#[test]
fn a_truncated_answer_is_not_a_finished_one() {
    let mut response = saying("do");
    response.stop_reason = StopReason::MaxTokens;
    let out = Turn::new().handle_responded(&open(), &mut prepared(), &params(), response, NOW);
    let Some(AgentDomainEvent::RunEnded { reason: RunEnd::Failed { error, .. }, .. }) =
        out.effect.events.last()
    else {
        panic!("expected a failure");
    };
    assert_eq!(error, "response truncated at the max_tokens limit");
    assert_eq!(out.effect.events.len(), 4);
}

#[test]
fn identical_batches_are_advised_and_then_fail() {
    let mut turn = Turn::new();
    let mut run = prepared();
    let state = open();
    for _ in 0..2 {
        let out = turn.handle_responded(&state, &mut run, &params(), calling("a", "bash", "x"), NOW);
        assert_eq!(out.effect.events.len(), 1, "a fresh batch is only journaled");
    }
    for _ in 0..2 {
        let out = turn.handle_responded(&state, &mut run, &params(), calling("a", "bash", "x"), NOW);
        let [_, AgentDomainEvent::InputMessage { message }] = out.effect.events.as_slice() else {
            panic!("expected advice, got {:?}", out.effect.events);
        };
        let [ContentPart::ToolResult(result)] = message.parts.as_slice() else {
            panic!("expected a tool result");
        };
        assert_eq!(result.tool_call_id, "a");
        assert_eq!(result.output, REPEATED_CALL_ADVICE);
        assert!(!result.is_error);
    }
    let out = turn.handle_responded(&state, &mut run, &params(), calling("a", "bash", "x"), NOW);
    let Some(AgentDomainEvent::RunEnded { reason: RunEnd::Failed { error, .. }, .. }) =
        out.effect.events.last()
    else {
        panic!("expected a stuck turn to fail");
    };
    assert_eq!(error, "stuck in loop: tool 'bash' called identically 5 times");
}

#[test]
fn a_different_batch_starts_the_count_again() {
    let mut turn = Turn::new();
    let mut run = prepared();
    for f in ["x", "x", "y", "x", "x"] {
        let out = turn.handle_responded(&open(), &mut run, &params(), calling("a", "bash", f), NOW);
        assert_eq!(out.effect.events.len(), 1);
    }
}

#[test]
fn a_transient_failure_is_tried_again() {
    let mut turn = Turn::new();
    let mut run = prepared();
    let failure = |retry_after_ms| LlmFailure {
        error: "overloaded".into(),
        transient: true,
        retry_after_ms,
    };
    let first = turn.handle_llm_failed(&open(), &mut run, &params(), failure(None), NOW);
    assert_eq!(first.call.expect("tried again").delay_ms, Some(100));
    let second = turn.handle_llm_failed(&open(), &mut run, &params(), failure(Some(7)), NOW);
    assert_eq!(second.call.expect("tried again").delay_ms, Some(7));
    let third = turn.handle_llm_failed(&open(), &mut run, &params(), failure(None), NOW);
    assert!(third.call.is_none());
    let Some(AgentDomainEvent::RunEnded { reason: RunEnd::Failed { error, recoverable, .. }, .. }) =
        third.effect.events.last()
    else {
        panic!("expected a failure");
    };
    assert_eq!((error.as_str(), *recoverable), ("overloaded", true));
}

#[test]
fn a_permanent_failure_is_reported_as_one() {
    let failure = LlmFailure { error: "bad key".into(), transient: false, retry_after_ms: None };
    let out = Turn::new().handle_llm_failed(&open(), &mut prepared(), &params(), failure, NOW);
    assert!(out.call.is_none());
    assert!(matches!(
        out.effect.events.last(),
        Some(AgentDomainEvent::RunEnded { reason: RunEnd::Failed { recoverable: false, .. }, .. })
    ));
}

#[test]
fn a_step_that_owes_a_result_is_nudged_then_forced_then_failed() {
    let mut state = open();
    let mut run = prepared();
    let first = Turn::ended_without_result(&state, &mut run, NOW);
    let [AgentDomainEvent::Received { item: Incoming::User { id, text, .. }, .. }, AgentDomainEvent::Nudged { .. }] =
        first.events.as_slice()
    else {
        panic!("expected a nudge, got {:?}", first.events);
    };
    assert_eq!(id, "nudge-result:0");
    assert_eq!(text, RESULT_NUDGE);
    assert_eq!(run.pending_tool_choice, None, "the first nudge leaves the model free");

    state = AgentLoop::apply(state, AgentDomainEvent::Nudged { at_ms: NOW });
    let second = Turn::ended_without_result(&state, &mut run, NOW);
    assert_eq!(second.events.len(), 2);
    assert_eq!(run.pending_tool_choice, Some(ToolChoice::Required("submit_result".into())));

    state = AgentLoop::apply(state, AgentDomainEvent::Nudged { at_ms: NOW });
    assert_eq!(state.nudges(), MAX_RESULT_NUDGES);
    let third = Turn::ended_without_result(&state, &mut run, NOW);
    let [AgentDomainEvent::RunEnded { reason: RunEnd::Failed { error, .. }, .. }] =
        third.events.as_slice()
    else {
        panic!("expected the step to fail");
    };
    assert_eq!(
        error,
        "the step ended 3 turns without calling `submit_result`, and nothing would wake it"
    );
}

#[test]
fn a_step_that_something_will_wake_parks() {
    let mut run = prepared();
    assert_eq!(Turn::ended_without_result(&armed(open()), &mut run, NOW), parked());
    let working = AgentLoop::apply(
        open(),
        AgentDomainEvent::LifecycleRecorded {
            event: LifecycleEvent::SubAgent(SubAgentLifecycle {
                id: "s".into(),
                label: "l".into(),
                status: "running".into(),
            }),
            at_ms: NOW,
        },
    );
    assert_eq!(Turn::ended_without_result(&working, &mut run, NOW), parked());
}

#[test]
fn a_worker_that_waits_parks_and_one_that_does_not_ends() {
    let waits = AgentParams { park_on_outstanding_work: true, ..params() };
    let end = |p: &AgentParams| {
        Turn::new().conclude(
            RunReport { outcome: RunOutcome::Completed },
            &armed(open()),
            &mut prepared(),
            p,
            vec![],
            "m".into(),
            NOW,
        )
    };
    assert_eq!(end(&waits), parked());
    assert_eq!(end(&params()), CommandEffect::none());
    assert_eq!(end(&owing()), parked());
}

#[test]
fn questions_asked_together_are_parked_on_together() {
    let calls = vec![
        stopped("a", "ask_user", "{\"question\": \"which?\", \"choices\": [\"x\", 1, \"y\"], \"multiple\": true}"),
        stopped("b", "ask_user", "{}"),
    ];
    let asks = || {
        vec![
            AskedQuestion {
                tool_call_id: Some("a".into()),
                question: "which?".into(),
                choices: vec!["x".into(), "y".into()],
                multiple: true,
            },
            AskedQuestion {
                tool_call_id: Some("b".into()),
                question: String::new(),
                choices: vec![],
                multiple: false,
            },
        ]
    };
    let effect = Turn::new().ended_by_tools(vec![], calls, &open(), NOW);
    let [AgentDomainEvent::RunComplete { iterations: 0, .. }, AgentDomainEvent::AskRecorded { asks: recorded, .. }, AgentDomainEvent::RunEnded { reason: RunEnd::AwaitingInput { asks: awaited }, .. }] =
        effect.events.as_slice()
    else {
        panic!("expected a park, got {:?}", effect.events);
    };
    assert_eq!(recorded, &asks());
    assert_eq!(awaited, &asks());
    assert!(effect.snapshot);
}

#[test]
fn a_submitted_result_answers_its_call_and_drops_the_timers() {
    let effect = Turn::new().ended_by_tools(
        vec![],
        vec![stopped("a", "submit_result", "{\"outcome\": \"p0\"}")],
        &armed(open()),
        NOW,
    );
    let [AgentDomainEvent::RunComplete { .. }, AgentDomainEvent::ToolComplete { tool_call_id, output, is_error, .. }, AgentDomainEvent::TimerCancelled { ids, .. }] =
        effect.events.as_slice()
    else {
        panic!("expected a result, got {:?}", effect.events);
    };
    assert_eq!((tool_call_id.as_str(), output.as_str(), *is_error), ("a", "result submitted", false));
    assert_eq!(ids, &vec![TimerId("t".into())]);
}

/// What the batch's other calls did is read before the ending is decided.
#[test]
fn a_timer_armed_beside_a_submitted_result_is_dropped() {
    let record = armed(open()).timers().expect("a timer").records()[0].clone();
    let armed_now = || AgentDomainEvent::TimerArmed { record: record.clone(), at_ms: NOW };
    let effect = Turn::new().ended_by_tools(
        vec![armed_now()],
        vec![stopped("a", "submit_result", "{\"outcome\": \"p0\"}")],
        &open(),
        NOW,
    );
    let [first, AgentDomainEvent::RunComplete { .. }, AgentDomainEvent::ToolComplete { .. }, AgentDomainEvent::TimerCancelled { ids, .. }] =
        effect.events.as_slice()
    else {
        panic!("expected the timer to go, got {:?}", effect.events);
    };
    assert_eq!(*first, armed_now());
    assert_eq!(ids, &vec![TimerId("t".into())]);
    let after = AgentLoop::apply_all(open(), effect.events);
    assert!(after.timers().is_none_or(|timers| timers.records().is_empty()));
}

#[test]
fn a_contradiction_is_told_and_run_again() {
    let calls = || vec![stopped("a", "ask_user", "{}"), stopped("b", "submit_result", "{}")];
    let said = "You ended your turn with more than one finishing tool (ask_user, submit_result). Do one thing: either ask the user, or submit this step's result.";
    let effect = Turn::correct_contradiction(calls(), &open(), NOW);
    let [AgentDomainEvent::ToolComplete { tool_call_id: a, output, is_error, .. }, AgentDomainEvent::ToolComplete { tool_call_id: b, .. }, AgentDomainEvent::Nudged { .. }, AgentDomainEvent::Received { item: Incoming::Continue { id, reason }, .. }] =
        effect.events.as_slice()
    else {
        panic!("expected a correction, got {:?}", effect.events);
    };
    assert_eq!((a.as_str(), b.as_str(), *is_error), ("a", "b", true));
    assert_eq!(output, said);
    assert_eq!(reason, said);
    assert_eq!(id, "contradiction:1");

    let mut state = open();
    for _ in 0..MAX_RESULT_NUDGES {
        state = AgentLoop::apply(state, AgentDomainEvent::Nudged { at_ms: NOW });
    }
    let spent = Turn::correct_contradiction(calls(), &state, NOW);
    assert_eq!(spent.events.len(), 3, "a model with no corrections left is not run again");
}

#[test]
fn what_the_tools_that_ended_a_run_meant() {
    assert_eq!(Turn::interpret(vec![]), Conclusion::Output(Json::Null, None));
    assert_eq!(
        Turn::interpret(vec![stopped("a", "submit_result", "7")]),
        Conclusion::Output(json("7"), Some("a".into()))
    );
    let twice = vec![stopped("a", "submit_result", "1"), stopped("b", "submit_result", "2")];
    assert!(matches!(Turn::interpret(twice), Conclusion::Contradiction(_)));
}

#[test]
fn a_cancelled_turn_keeps_what_was_written() {
    let mut run = prepared();
    run.begin(StepPhase::CallingProvider, 0);
    assert!(run.push_delta(0, "half ".into()));
    assert!(run.push_delta(0, "a thought".into()));
    let repair = Message::tool_result("a", "cancelled".into(), true, vec![], NOW);
    let effect = Turn::new().cancelled(&run, vec![repair], "m".into(), NOW);
    let [AgentDomainEvent::RunAborted { .. }, AgentDomainEvent::InputMessage { .. }, AgentDomainEvent::MessageAborted { message }, AgentDomainEvent::RunCancelled { .. }, AgentDomainEvent::RunEnded { reason: RunEnd::Cancelled, .. }] =
        effect.events.as_slice()
    else {
        panic!("expected a cancellation, got {:?}", effect.events);
    };
    assert_eq!(message.parts, vec![ContentPart::Text("half a thought".into())]);
    assert!(effect.snapshot);

    let mut blank = prepared();
    blank.begin(StepPhase::CallingProvider, 0);
    blank.push_delta(0, " \n".into());
    assert!(Turn::aborted_message(&blank, "m".into(), NOW).is_none());
}

#[test]
fn a_straggler_changes_nothing() {
    let mut turn = Turn::new();
    let mut run = prepared();
    run.begin(StepPhase::CallingProvider, 0);
    let state = open();
    let out = turn.step_done(&state, &mut run, &params(), 9, saying("late"), NOW);
    assert_eq!(out.effect, CommandEffect::none());
    assert_eq!(run.running, Some(StepPhase::CallingProvider));
    assert!(!Turn::stream_delta(&state, &mut run, 9, "late".into()));
    assert!(run.deltas.is_empty());
    run.stop();
    let failure = LlmFailure { error: "late".into(), transient: true, retry_after_ms: None };
    let out = turn.step_failed(&state, &mut run, &params(), 0, failure, NOW);
    assert_eq!(out.effect, CommandEffect::none());
    assert!(out.call.is_none());
}

#[test]
fn a_live_report_frees_the_slot() {
    let mut turn = Turn::new();
    let mut run = prepared();
    run.begin(StepPhase::CallingProvider, 0);
    let state = open();
    assert!(Turn::stream_delta(&state, &mut run, 0, "hi".into()));
    let out = turn.step_done(&state, &mut run, &params(), 0, saying("hi"), NOW);
    assert_eq!(out.effect.events.len(), 2);
    assert_eq!(run.running, None);
}

#[test]
fn a_run_command_is_shown_written_or_left_alone() {
    let mut turn = Turn::new();
    let mut run = prepared();
    run.begin(StepPhase::CallingProvider, 0);
    let state = open();
    let chunk = |marker_seq| RunCommand::StreamDelta { marker_seq, text: "hi".into() };
    assert!(!turn.handle(chunk(9), &state, &mut run, &params(), NOW).1);
    assert!(turn.handle(chunk(0), &state, &mut run, &params(), NOW).1);
    assert_eq!(run.deltas, vec!["hi".to_string()]);

    let progress = || vec![AgentDomainEvent::Nudged { at_ms: NOW }];
    let written = RunCommand::PersistProgress { events: progress() };
    let (out, shown) = turn.handle(written, &state, &mut run, &params(), NOW);
    assert!(!shown);
    assert_eq!(out.effect.events, progress());

    let hooked = RunCommand::StopHookDone { marker_seq: 0, result: StopHookOutcome::Allow };
    let (out, _) = turn.handle(hooked, &state, &mut run, &params(), NOW);
    assert_eq!(out.effect, CommandEffect::none());
    assert_eq!(run.running, Some(StepPhase::CallingProvider));

    let done = RunCommand::StepDone { marker_seq: 0, response: Box::new(saying("hi")) };
    let (out, _) = turn.handle(done, &state, &mut run, &params(), NOW);
    assert_eq!(out.effect.events.len(), 2);
    assert_eq!(run.running, None);
}
