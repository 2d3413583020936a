//! Starting a workflow run, and reading back the ones still going.

use horsie_agent::capabilities::state::{CapabilityEvent, CapabilityState};
use horsie_agent::capabilities::workflow::{
    child, holds, invoked, invoked_with, reloaded, render_status, replied, request, Invoked,
    Pending, Request, WorkflowCapability, WorkflowState, INVOKE_TOOL, STATUS_TOOL,
};
use horsie_agent::capabilities::{Capabilities, Capability, SessionReply, SessionRequest};
use horsie_agent::ids::{RunnerId, RunnerKind};
use horsie_agent::inbox::Incoming;
use horsie_agent::json::{Json, Number};
use horsie_agent::runners::{
    AgentFacts, ChildMsg, ChildOutcome, RunnerArgs, SubAgentOutcome, WorkflowOutcome,
    WorkflowSource,
};

/// The JSON this text spells.
fn json(text: &str) -> Json {
    convert(&serde_json::from_str(text).expect("valid JSON"))
}

fn convert(value: &serde_json::Value) -> Json {
    match value {
        serde_json::Value::Null => Json::Null,
        serde_json::Value::Bool(b) => Json::Bool(*b),
        serde_json::Value::Number(n) => Json::Number(match (n.as_u64(), n.as_i64()) {
            (Some(n), _) => Number::PosInt(n),
            (None, Some(n)) => Number::NegInt(n),
            (None, None) => Number::Fraction(n.to_string()),
        }),
        serde_json::Value::String(s) => Json::String(s.clone()),
        serde_json::Value::Array(items) => Json::Array(items.iter().map(convert).collect()),
        serde_json::Value::Object(members) => Json::Object(
            members
                .iter()
                .map(|(name, value)| (name.clone(), convert(value)))
                .collect(),
        ),
    }
}

/// What loading an agent that found nothing leaves behind.
fn facts() -> AgentFacts {
    AgentFacts { agents: None }
}

/// The names one capability adds to an empty toolbox.
fn advertised_by(cap: &Capability, facts: &AgentFacts) -> Vec<String> {
    cap.layer(vec![], facts).into_iter().map(|s| s.name).collect()
}

fn invoke_input() -> Result<Request, String> {
    Ok(Request { workflow: "release".into(), input: "cut 1.2.0".into() })
}

fn text(s: &str) -> Json {
    Json::String(s.to_string())
}

fn fold(workflow: WorkflowState, event: CapabilityEvent) -> WorkflowState {
    let mut state = CapabilityState::new(Capabilities::new(vec![]));
    state.workflow = workflow;
    state.apply(event).workflow
}

fn pending() -> Pending {
    let Invoked::Ask { pending, .. } = invoked(invoke_input()) else {
        panic!("a well-formed invocation asks the session for a run");
    };
    pending
}

fn requested() -> (WorkflowState, RunnerId) {
    let pending = pending();
    let child = pending.child;
    let state = fold(
        WorkflowState::default(),
        CapabilityEvent::WorkflowRequested { call: "t1".to_string(), pending },
    );
    (state, child)
}

/// Invoke, and let the session say yes.
fn started() -> (WorkflowState, RunnerId) {
    let (state, child) = requested();
    let run = replied(&state, &SessionReply::Done { call: "t1".into() })
        .expect("the reply answers a call I made");
    let state = fold(
        state,
        CapabilityEvent::WorkflowStarted { call: run.call().to_string() },
    );
    (state, child)
}

#[test]
fn an_invocation_journals_and_asks_for_the_same_run() {
    let Invoked::Ask { pending, note } = invoked(invoke_input()) else {
        panic!("a well-formed invocation asks the session for a run");
    };
    assert!(note.contains("release"), "the park says what it is waiting for: {note}");
    let child = pending.child;
    let SessionRequest::StartRunner { call, id, kind, args } = request("t1", &pending) else {
        panic!("an invocation asks the session to start a runner");
    };
    assert_eq!(id, child, "the log records a run nothing was asked for");
    assert_eq!(call, "t1");
    assert_eq!(kind, RunnerKind::Workflow);
    let RunnerArgs::Workflow { source, input } = args.as_ref() else {
        panic!("expected workflow args, got {args:?}");
    };
    let WorkflowSource::Named(name) = source;
    assert_eq!(name, "release");
    assert_eq!(input, "cut 1.2.0");

    let state = fold(
        WorkflowState::default(),
        CapabilityEvent::WorkflowRequested { call: "t1".to_string(), pending },
    );
    assert!(state.outstanding().is_empty(), "the session has not said yes yet");
}

#[test]
fn a_malformed_invocation_is_refused_in_words_and_journals_nothing() {
    let Invoked::Told(text) = invoked(Err("missing field `input`".into())) else {
        panic!("the name is mine, so the mistake is mine to answer");
    };
    assert!(text.contains(INVOKE_TOOL), "the reply names the tool: {text}");
    assert_eq!(
        text,
        "`invoke_workflow` was called with arguments it cannot read: missing field `input`"
    );
}

#[test]
fn a_started_run_answers_the_parked_call_and_becomes_outstanding() {
    let (state, child) = requested();
    let run = replied(&state, &SessionReply::Done { call: "t1".into() })
        .expect("the reply answers a call I made");
    assert_eq!(run.call(), "t1");
    let result = run.result();
    assert_eq!(result.tool_call_id, "t1");
    assert!(result.output.contains(&child.text()));
    assert_eq!(result.output, format!("Workflow run started: {}", child.text()));
    assert!(!result.is_error);

    let state = fold(state, CapabilityEvent::WorkflowStarted { call: "t1".to_string() });
    assert_eq!(state.outstanding(), vec![child]);
    assert!(state.pending("t1").is_none(), "an answered request is over");
    assert!(reloaded(&state).is_empty(), "nothing is left to be asked again");
}

#[test]
fn a_refusal_from_the_session_becomes_the_parked_calls_result() {
    let (state, _) = requested();
    let run = replied(
        &state,
        &SessionReply::Refused {
            call: "t1".into(),
            reason: "no workflow named `release`".into(),
        },
    )
    .expect("the reply answers a call I made");
    let result = run.result();
    assert_eq!(result.tool_call_id, "t1");
    assert_eq!(result.output, "no workflow named `release`");
    assert!(result.is_error);

    let state = fold(state, CapabilityEvent::WorkflowDropped { call: "t1".to_string() });
    assert!(state.pending("t1").is_none());
    assert!(state.outstanding().is_empty());
    assert_eq!(state, WorkflowState::default());
}

#[test]
fn a_run_the_session_never_answered_is_asked_again_on_load() {
    let (state, child) = requested();
    let asks = reloaded(&state.clone());
    let [SessionRequest::StartRunner { call, id, args, .. }] = asks.as_slice() else {
        panic!("expected exactly one re-ask, got {} of them", asks.len());
    };
    assert_eq!(call, "t1");
    assert_eq!(*id, child, "the re-ask names a run the log never recorded");
    let RunnerArgs::Workflow { source, input } = args.as_ref() else {
        panic!("expected workflow args, got {args:?}");
    };
    let WorkflowSource::Named(name) = source;
    assert_eq!(name, "release");
    assert_eq!(input, "cut 1.2.0");
}

#[test]
fn a_run_the_session_answered_is_not_asked_again() {
    let (state, _child) = started();
    assert!(reloaded(&state).is_empty());
}

#[test]
fn workflow_a_reply_for_a_call_i_never_made_is_not_mine() {
    assert!(replied(
        &WorkflowState::default(),
        &SessionReply::Done { call: "someone-else".into() }
    )
    .is_none());
}

#[test]
fn a_finished_run_queues_its_output_for_the_invoker() {
    let (state, kid) = started();
    let reported = child(
        &state,
        &ChildMsg::Outcome {
            child: kid,
            outcome: ChildOutcome::Workflow(WorkflowOutcome::Finished { output: text("shipped") }),
        },
    )
    .expect("mine");
    assert_eq!(reported.child, kid);
    let Incoming::SubAgent { id, part } = &reported.item else {
        panic!("expected a queued output, got {:?}", reported.item);
    };
    assert_eq!(*id, kid.text());
    assert_eq!(part.status, "completed");
    assert_eq!(part.text, "shipped", "the model was handed its own quotes");
    assert_eq!(part.label, "workflow");

    let state = fold(state, CapabilityEvent::WorkflowReported { child: reported.child });
    assert!(state.outstanding().is_empty());
}

#[test]
fn a_failed_run_is_queued_as_a_failed_part() {
    let (state, kid) = started();
    let reported = child(
        &state,
        &ChildMsg::Outcome {
            child: kid,
            outcome: ChildOutcome::Workflow(WorkflowOutcome::Failed {
                error: "step 2 failed".into(),
            }),
        },
    )
    .expect("mine");
    let Incoming::SubAgent { part, .. } = &reported.item else {
        panic!("expected a queued output, got {:?}", reported.item);
    };
    assert_eq!(part.status, "failed");
    assert_eq!(part.text, "step 2 failed");
}

#[test]
fn a_run_that_never_started_is_reported_as_failed() {
    let (state, kid) = started();
    let reported = child(
        &state,
        &ChildMsg::Failed { child: kid, error: "the create failed".into() },
    )
    .expect("mine");
    let Incoming::SubAgent { part, .. } = &reported.item else {
        panic!("expected a queued output, got {:?}", reported.item);
    };
    assert_eq!(part.status, "failed");
    assert_eq!(part.text, "the create failed");
}

#[test]
fn a_subagent_outcome_is_never_mine_even_for_a_child_i_hold() {
    let (state, kid) = started();
    assert!(child(
        &state,
        &ChildMsg::Outcome {
            child: kid,
            outcome: ChildOutcome::SubAgent(SubAgentOutcome::Completed {
                label: "l".into(),
                report: "r".into(),
            }),
        }
    )
    .is_none());
    assert!(child(&state, &ChildMsg::Ready { child: kid }).is_none());
}

#[test]
fn an_outcome_for_a_run_i_did_not_invoke_is_not_mine() {
    assert!(child(
        &WorkflowState::default(),
        &ChildMsg::Outcome {
            child: RunnerId::new_v4(),
            outcome: ChildOutcome::Workflow(WorkflowOutcome::Finished { output: text("done") }),
        }
    )
    .is_none());
}

#[test]
fn a_turn_ending_with_a_run_in_flight_holds_the_conclusion() {
    let (state, kid) = started();
    assert!(state.holds_conclusion());
    let note = holds(&state).expect("a run in flight holds the agent");
    assert_eq!(note, "1 workflow run(s) still in flight");

    let reported = child(
        &state,
        &ChildMsg::Outcome {
            child: kid,
            outcome: ChildOutcome::Workflow(WorkflowOutcome::Finished { output: text("done") }),
        },
    )
    .expect("mine");
    let state = fold(state, CapabilityEvent::WorkflowReported { child: reported.child });
    assert!(!state.holds_conclusion());
    assert!(holds(&state).is_none());
}

#[test]
fn status_lists_the_runs_in_flight_and_journals_nothing() {
    let (state, kid) = started();
    assert!(render_status(&state).contains(&kid.text()));
    assert_eq!(
        render_status(&state),
        format!("1 workflow run(s) in flight:\n- {}", kid.text())
    );
    let state = fold(state, CapabilityEvent::WorkflowReported { child: kid });
    assert!(!render_status(&state).contains(&kid.text()));
    assert_eq!(render_status(&state), "No workflow runs are in flight.");
}

#[test]
fn workflow_it_advertises_both_tools() {
    assert_eq!(
        advertised_by(&Capability::Workflow(WorkflowCapability), &facts()),
        vec![INVOKE_TOOL, STATUS_TOOL]
    );
}

#[test]
fn a_copied_state_keeps_the_runs_in_flight() {
    let (state, kid) = started();
    assert_eq!(state.clone().outstanding(), vec![kid]);
}

/// An output that is not text is laid out for the model to read.
#[test]
fn an_output_that_is_not_text_is_laid_out() {
    let (state, kid) = started();
    let reported = child(
        &state,
        &ChildMsg::Outcome {
            child: kid,
            outcome: ChildOutcome::Workflow(WorkflowOutcome::Finished {
                output: json("{\"b\":[1,2],\"a\":true}"),
            }),
        },
    )
    .expect("mine");
    let Incoming::SubAgent { part, .. } = &reported.item else {
        panic!("expected a queued output");
    };
    assert_eq!(
        part.text,
        "{\n  \"a\": true,\n  \"b\": [\n    1,\n    2\n  ]\n}"
    );
}

/// An invocation with a given id names that run.
#[test]
fn an_invocation_names_the_run_it_was_given() {
    assert_eq!(
        invoked_with(invoke_input(), RunnerId(5)),
        Invoked::Ask {
            pending: Pending {
                child: RunnerId(5),
                workflow: "release".into(),
                input: "cut 1.2.0".into(),
            },
            note: "starting workflow release".into(),
        }
    );
}
