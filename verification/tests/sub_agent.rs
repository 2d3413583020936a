//! Handing work to a worker, and being told how it went.

use horsie_agent::capabilities::state::{CapabilityEvent, CapabilityState};
use horsie_agent::capabilities::sub_agent::{
    child, holds, render_status, replied, Child, Pending, Request, Spawned, SubAgentCapability,
    SubAgentState, SPAWN_TOOL, STATUS_TOOL,
};
use horsie_agent::capabilities::{Capabilities, Capability, SessionReply, SessionRequest};
use horsie_agent::ids::{AgentId, RunnerId, RunnerKind};
use horsie_agent::inbox::Incoming;
use horsie_agent::json::Json;
use horsie_agent::model::ToolSpec;
use horsie_agent::runners::{
    AgentCatalog, AgentFacts, AgentSettings, CatalogAgent, ChildMsg, ChildOutcome, RunnerArgs,
    SubAgentOutcome, WorkflowOutcome, MAX_SUBAGENT_DEPTH,
};

/// The settings of an agent with nothing configured.
fn settings() -> AgentSettings {
    AgentSettings {
        model: "m".to_string(),
        max_iterations: None,
        max_retries: 3,
        allowed_tools: None,
        use_plugins: None,
        plugins: vec![],
        auto_compact: None,
        max_concurrent_subagents: None,
    }
}

/// What loading an agent that found nothing leaves behind.
fn facts() -> AgentFacts {
    AgentFacts { agents: None }
}

/// The names one capability adds to an empty toolbox.
fn advertised_by(cap: &Capability, facts: &AgentFacts) -> Vec<String> {
    cap.layer(vec![], facts).into_iter().map(|s| s.name).collect()
}

/// An agent that may delegate, sitting at the top of the tree.
fn cap() -> SubAgentCapability {
    at_depth(0)
}

fn at_depth(depth: u32) -> SubAgentCapability {
    SubAgentCapability::new(settings(), depth)
}

fn delegating() -> Capability {
    Capability::SubAgent(cap())
}

/// Journal one event.
fn fold(sub_agent: SubAgentState, event: CapabilityEvent) -> SubAgentState {
    let mut state = CapabilityState::new(Capabilities::new(vec![]));
    state.sub_agent = sub_agent;
    state.apply(event).sub_agent
}

/// The state a run of events leaves behind.
fn folded(events: Vec<CapabilityEvent>) -> SubAgentState {
    CapabilityState::new(Capabilities::new(vec![])).apply_all(events).sub_agent
}

/// The arguments of a spawn.
fn args(label: &str, task: &str, agent_type: Option<&str>) -> Result<Request, String> {
    Ok(Request {
        label: label.into(),
        task: task.into(),
        agent_type: agent_type.map(str::to_string),
    })
}

/// The plain spawn every test that is not about arguments asks for.
fn spawn_input() -> Result<Request, String> {
    args("l", "t", None)
}

/// A spawn asked for under call `t1`, with the event journaled for it.
fn asked(c: &SubAgentCapability) -> (Pending, CapabilityEvent) {
    let Spawned::Ask { pending, .. } = c.spawned(spawn_input(), &None) else {
        panic!("expected the session to be asked for a child");
    };
    let event = CapabilityEvent::SubAgentRequested {
        call: "t1".to_string(),
        pending: pending.clone(),
    };
    (pending, event)
}

/// Ask for a worker and let the session say yes.
fn running(c: &SubAgentCapability) -> (SubAgentState, RunnerId) {
    let (pending, requested) = asked(c);
    let state = folded(vec![
        requested,
        CapabilityEvent::SubAgentStarted { call: "t1".to_string() },
    ]);
    (state, pending.child)
}

fn refusal(spawned: Spawned) -> String {
    match spawned {
        Spawned::Told(text) => text,
        Spawned::Ask { pending, .. } => {
            panic!("a refused spawn must not reach the session: {pending:?}")
        }
    }
}

fn facts_with(agents: &[(&str, &str)]) -> AgentFacts {
    AgentFacts { agents: catalog(agents) }
}

fn catalog(agents: &[(&str, &str)]) -> Option<AgentCatalog> {
    Some(AgentCatalog {
        agents: agents
            .iter()
            .map(|(name, description)| CatalogAgent {
                plugin: "fd".into(),
                name: (*name).to_string(),
                description: (*description).to_string(),
                model: None,
                tools: Vec::new(),
                prompt: "be one".into(),
            })
            .collect(),
    })
}

/// What the model is shown for `spawn_agent` under these facts.
fn spawn_spec(facts: &AgentFacts) -> ToolSpec {
    delegating()
        .layer(vec![], facts)
        .into_iter()
        .find(|t| t.name == SPAWN_TOOL)
        .expect("spawn_agent is advertised")
}

#[test]
fn a_spawn_journals_and_asks_for_the_same_child() {
    let c = cap();
    let Spawned::Ask { pending, note } = c.spawned(args("read the flake", "look", None), &None)
    else {
        panic!("expected the session to be asked for a child");
    };
    assert!(
        note.contains("read the flake"),
        "the park says nothing about what is being waited on: {note}"
    );

    let request = c.request("t1", &pending);
    let SessionRequest::StartRunner { call, id, kind, args } = &request else {
        panic!("expected a runner to be started, got {request:?}");
    };
    assert_eq!(*id, pending.child, "the log records a child nothing was asked for");
    assert_eq!(call, "t1", "the call the session answers is the parked one");
    assert_eq!(*kind, RunnerKind::SubAgent);
    let RunnerArgs::SubAgent { agent, label, .. } = args.as_ref() else {
        panic!("expected subagent args, got {args:?}");
    };
    assert_ne!(agent.0, pending.child.0);
    assert_eq!(*agent, pending.agent);
    assert_eq!(label, "read the flake");

    let state = folded(vec![CapabilityEvent::SubAgentRequested {
        call: "t1".to_string(),
        pending: pending.clone(),
    }]);
    assert!(state.outstanding().is_empty());
    assert_eq!(state.pending("t1"), Some(&pending));
}

#[test]
fn a_spawn_at_the_depth_limit_is_refused_without_asking_the_session() {
    let ok = at_depth(MAX_SUBAGENT_DEPTH - 1).spawned(spawn_input(), &None);
    assert!(matches!(ok, Spawned::Ask { .. }));
    let told = at_depth(MAX_SUBAGENT_DEPTH).spawned(spawn_input(), &None);
    assert_eq!(refusal(told), "max subagent depth 4 reached");
}

#[test]
fn a_cap_refusal_from_the_session_becomes_the_parked_calls_result() {
    let c = cap();
    let (_, requested) = asked(&c);
    let state = folded(vec![requested.clone()]);

    let dropped = replied(
        &state,
        &SessionReply::Refused {
            call: "t1".into(),
            reason: "8 subagents already active".into(),
        },
    )
    .expect("the reply answers a call I made");
    assert!(matches!(dropped, Child::Dropped { .. }));
    assert_eq!(dropped.call(), "t1");
    let result = dropped.result();
    assert_eq!(result.tool_call_id, "t1");
    assert_eq!(result.output, "8 subagents already active");
    assert!(result.is_error);

    let state = folded(vec![
        requested,
        CapabilityEvent::SubAgentDropped { call: "t1".to_string() },
    ]);
    assert!(state.pending("t1").is_none());
    assert!(state.outstanding().is_empty());
    assert_eq!(state, SubAgentState::default());
}

#[test]
fn a_started_child_answers_the_parked_call_and_becomes_outstanding() {
    let c = cap();
    let (pending, requested) = asked(&c);
    let state = folded(vec![requested.clone()]);

    let started = replied(&state, &SessionReply::Done { call: "t1".into() }).expect("mine");
    let result = started.result();
    assert_eq!(result.tool_call_id, "t1");
    assert!(!result.is_error);
    assert!(result.output.starts_with("Subagent spawned: "));

    let state = folded(vec![
        requested,
        CapabilityEvent::SubAgentStarted { call: "t1".to_string() },
    ]);
    let outstanding = state.outstanding();
    assert_eq!(outstanding, vec![pending.child]);
    assert!(state.pending("t1").is_none(), "an answered request is over");
    assert!(c.reloaded(&state).is_empty(), "nothing is left to be asked again");
    assert!(result.output.contains(&outstanding[0].text()));
}

#[test]
fn a_spawn_the_session_never_answered_is_asked_again_on_load() {
    let c = cap();
    let (pending, requested) = asked(&c);
    let first = c.request("t1", &pending);
    let SessionRequest::StartRunner { call, id, args, .. } = &first else {
        panic!("expected a runner to be started, got {first:?}");
    };
    let (first_call, child) = (call.clone(), *id);
    let RunnerArgs::SubAgent { agent, .. } = args.as_ref() else {
        panic!("expected subagent args, got {args:?}");
    };
    let worker = *agent;

    let state =
        CapabilityState::new(Capabilities::new(vec![Capability::SubAgent(c)])).apply(requested);
    let reloaded = state.clone();
    let [Capability::SubAgent(back)] = reloaded.capabilities.iter().as_slice() else {
        panic!("the copy changed which capability this is");
    };

    let again = back.reloaded(&reloaded.sub_agent);
    let [SessionRequest::StartRunner { call, id, kind, args }] = again.as_slice() else {
        panic!("expected exactly one re-ask, got {again:?}");
    };
    assert_eq!(*call, first_call);
    assert_eq!(*id, child);
    assert_eq!(*kind, RunnerKind::SubAgent);
    let RunnerArgs::SubAgent { agent, label, task, .. } = args.as_ref() else {
        panic!("expected subagent args, got {args:?}");
    };
    assert_eq!(*agent, worker);
    assert_eq!(label, "l");
    assert_eq!(task, "t");
}

#[test]
fn a_spawn_the_session_answered_is_not_asked_again() {
    let c = cap();
    let (state, _) = running(&c);
    assert!(c.reloaded(&state).is_empty());

    let (_, requested) = asked(&c);
    let state = folded(vec![
        requested,
        CapabilityEvent::SubAgentDropped { call: "t1".to_string() },
    ]);
    assert!(c.reloaded(&state).is_empty());
}

#[test]
fn sub_agent_a_reply_for_a_call_i_never_made_is_not_mine() {
    let c = cap();
    let (_, requested) = asked(&c);
    let state = folded(vec![requested]);
    assert!(replied(&state, &SessionReply::Done { call: "someone-else".into() }).is_none());
}

#[test]
fn a_malformed_spawn_is_refused_in_words_and_journals_nothing() {
    let told = cap().spawned(Err("missing field `task`".to_string()), &None);
    let said = refusal(told);
    assert!(said.contains(SPAWN_TOOL));
    assert_eq!(
        said,
        "`spawn_agent` was called with arguments it cannot read: missing field `task`"
    );
}

#[test]
fn a_completed_report_is_queued_for_the_agent_that_asked() {
    let c = cap();
    let (state, kid) = running(&c);
    let reported = child(
        &state,
        &ChildMsg::Outcome {
            child: kid,
            outcome: ChildOutcome::SubAgent(SubAgentOutcome::Completed {
                label: "l".into(),
                report: "found it".into(),
            }),
        },
    )
    .expect("mine");
    assert_eq!(reported.child, kid);
    let Incoming::SubAgent { id, part } = &reported.item else {
        panic!("expected a queued report, got {:?}", reported.item);
    };
    assert_eq!(*id, kid.text());
    assert_eq!(part.status, "completed");
    assert_eq!(part.text, "found it");
    assert_eq!(part.subagent_id, kid.text());
    assert_eq!(part.label, "l");
    assert_eq!((part.spawned_at_ms, part.ended_at_ms), (0, 0));

    let state = fold(state, CapabilityEvent::SubAgentReported { child: reported.child });
    assert!(state.outstanding().is_empty(), "a reported child owes nothing");
}

#[test]
fn a_failed_outcome_is_queued_as_a_failed_part() {
    let c = cap();
    let (state, kid) = running(&c);
    let reported = child(
        &state,
        &ChildMsg::Outcome {
            child: kid,
            outcome: ChildOutcome::SubAgent(SubAgentOutcome::Failed {
                label: "l".into(),
                error: "it broke".into(),
            }),
        },
    )
    .expect("mine");
    let Incoming::SubAgent { part, .. } = &reported.item else {
        panic!("expected a queued report, got {:?}", reported.item);
    };
    assert_eq!(part.status, "failed");
    assert_eq!(part.text, "it broke");
}

#[test]
fn a_child_that_never_ran_is_reported_as_failed() {
    let c = cap();
    let (state, kid) = running(&c);
    let reported = child(
        &state,
        &ChildMsg::Failed { child: kid, error: "the create failed".into() },
    )
    .expect("mine");
    assert_eq!(reported.child, kid);
    let Incoming::SubAgent { part, .. } = &reported.item else {
        panic!("expected a queued report, got {:?}", reported.item);
    };
    assert_eq!(part.status, "failed");
    assert_eq!(part.text, "the create failed");
    assert_eq!(part.label, kid.text());
}

#[test]
fn an_outcome_for_a_child_i_did_not_create_is_not_mine() {
    let c = cap();
    let (state, _) = running(&c);
    assert!(child(
        &state,
        &ChildMsg::Outcome {
            child: RunnerId::new_v4(),
            outcome: ChildOutcome::SubAgent(SubAgentOutcome::Completed {
                label: "l".into(),
                report: "r".into(),
            }),
        }
    )
    .is_none());
}

#[test]
fn a_workflow_outcome_is_never_mine() {
    let c = cap();
    let (state, kid) = running(&c);
    assert!(child(
        &state,
        &ChildMsg::Outcome {
            child: kid,
            outcome: ChildOutcome::Workflow(WorkflowOutcome::Finished {
                output: Json::String("done".into())
            }),
        }
    )
    .is_none());
    assert!(child(&state, &ChildMsg::Ready { child: kid }).is_none());
}

#[test]
fn a_turn_ending_with_an_outstanding_child_holds_the_conclusion() {
    let c = cap();
    let (state, kid) = running(&c);
    assert!(state.holds_conclusion());
    assert_eq!(holds(&state).as_deref(), Some("1 subagent(s) still owe a report"));

    let reported = child(
        &state,
        &ChildMsg::Outcome {
            child: kid,
            outcome: ChildOutcome::SubAgent(SubAgentOutcome::Completed {
                label: "l".into(),
                report: "done".into(),
            }),
        },
    )
    .expect("mine");
    let state = fold(state, CapabilityEvent::SubAgentReported { child: reported.child });
    assert!(!state.holds_conclusion());
    assert!(holds(&state).is_none());
}

#[test]
fn a_requested_child_does_not_hold_the_conclusion() {
    let c = cap();
    let (_, requested) = asked(&c);
    let state = folded(vec![requested]);
    assert!(state.pending("t1").is_some());
    assert!(!state.holds_conclusion());
    assert!(holds(&state).is_none());
}

#[test]
fn status_lists_the_outstanding_children_and_journals_nothing() {
    let c = cap();
    let (state, kid) = running(&c);
    assert!(render_status(&state).contains(&kid.text()));
    assert_eq!(
        render_status(&state),
        format!("1 subagent(s) running:\n- {}", kid.text())
    );
    let state = fold(state, CapabilityEvent::SubAgentReported { child: kid });
    assert!(!render_status(&state).contains(&kid.text()));
    assert_eq!(render_status(&state), "No subagents are running.");
}

#[test]
fn sub_agent_it_advertises_both_tools() {
    assert_eq!(advertised_by(&delegating(), &facts()), vec![SPAWN_TOOL, STATUS_TOOL]);
}

#[test]
fn the_scans_agent_types_are_advertised_with_their_descriptions() {
    let facts = facts_with(&[("code-auditor", "reviews diffs for real bugs")]);
    let spawn = spawn_spec(&facts);
    assert!(
        spawn.description.contains("- code-auditor: reviews diffs for real bugs"),
        "the model is not told which agent types exist: {}",
        spawn.description
    );
    let schema: serde_json::Value = serde_json::from_str(&spawn.input_schema).expect("JSON");
    assert!(
        schema["properties"]["agent_type"].is_object(),
        "a listed type the model cannot pass is no offer at all"
    );
}

#[test]
fn with_no_agent_types_found_the_parameter_is_absent() {
    for facts in [facts(), facts_with(&[])] {
        let spawn = spawn_spec(&facts);
        let schema: serde_json::Value = serde_json::from_str(&spawn.input_schema).expect("JSON");
        assert!(schema["properties"]["agent_type"].is_null());
        assert!(!spawn.description.contains("agent_type"));
    }
}

#[test]
fn an_unknown_agent_type_is_refused_and_names_the_installed_ones() {
    let installed = catalog(&[("code-auditor", "reviews"), ("scout", "searches")]);
    let told = cap().spawned(args("l", "t", Some("auditor")), &installed);
    assert_eq!(
        refusal(told),
        "no agent type 'auditor'; installed types are code-auditor, scout"
    );
    for none in [None, catalog(&[])] {
        let told = cap().spawned(args("l", "t", Some("auditor")), &none);
        assert_eq!(
            refusal(told),
            "no agent type 'auditor': this session has no agent types installed"
        );
    }
}

#[test]
fn an_installed_type_is_carried_to_the_child_and_a_blank_one_is_not() {
    let installed = catalog(&[("code-auditor", "reviews")]);
    for (given, expected) in [
        (Some("code-auditor"), Some("code-auditor")),
        (Some(" code-auditor "), Some("code-auditor")),
        (Some("  "), None),
        (None, None),
    ] {
        let Spawned::Ask { pending, .. } = cap().spawned(args("l", "t", given), &installed) else {
            panic!("expected the session to be asked for a child");
        };
        assert_eq!(pending.agent_type.as_deref(), expected);
    }
}

#[test]
fn a_spent_budget_advertises_nothing() {
    let mut zero = settings();
    zero.max_concurrent_subagents = Some(0);
    assert!(advertised_by(
        &Capability::SubAgent(SubAgentCapability::new(zero, 0)),
        &facts()
    )
    .is_empty());
    assert!(advertised_by(
        &Capability::SubAgent(SubAgentCapability::new(settings(), MAX_SUBAGENT_DEPTH)),
        &facts()
    )
    .is_empty());
}

#[test]
fn a_copied_state_keeps_the_outstanding_children() {
    let c = cap();
    let (sub_agent, kid) = running(&c);
    let mut state = CapabilityState::new(Capabilities::new(vec![Capability::SubAgent(c)]));
    state.sub_agent = sub_agent;
    let back = state.clone();
    assert_eq!(back.sub_agent.outstanding(), vec![kid]);
    let [Capability::SubAgent(back)] = back.capabilities.iter().as_slice() else {
        panic!("the copy changed which capability this is");
    };
    assert_eq!(back.depth, 0, "the depth this agent sits at is configuration too");
}

/// Several workers are listed in the order of their ids.
#[test]
fn workers_are_listed_in_the_order_of_their_ids() {
    let c = cap();
    let mut events = Vec::new();
    for (call, id) in [("a", 9u128), ("b", 3u128)] {
        let Spawned::Ask { pending, .. } =
            c.spawned_with(spawn_input(), &None, RunnerId(id), AgentId(id + 100))
        else {
            panic!("expected an ask");
        };
        events.push(CapabilityEvent::SubAgentRequested { call: call.to_string(), pending });
        events.push(CapabilityEvent::SubAgentStarted { call: call.to_string() });
    }
    let state = folded(events);
    assert_eq!(state.outstanding(), vec![RunnerId(3), RunnerId(9)]);
    assert_eq!(holds(&state).as_deref(), Some("2 subagent(s) still owe a report"));
    assert_eq!(
        render_status(&state),
        "2 subagent(s) running:\n- 00000000-0000-0000-0000-000000000003\n- 00000000-0000-0000-0000-000000000009"
    );
}

/// A started call nobody asked for changes nothing.
#[test]
fn a_start_nobody_asked_for_changes_nothing() {
    let state = folded(vec![CapabilityEvent::SubAgentStarted { call: "nope".to_string() }]);
    assert_eq!(state, SubAgentState::default());
}

/// A report is delivered once.
#[test]
fn a_report_is_not_delivered_twice() {
    let c = cap();
    let (state, kid) = running(&c);
    let msg = ChildMsg::Failed { child: kid, error: "gone".into() };
    let reported = child(&state, &msg).expect("mine");
    let state = fold(state, CapabilityEvent::SubAgentReported { child: reported.child });
    assert!(child(&state, &msg).is_none());
}
