//! Branching a conversation.

use horsie_agent::capabilities::fork::{
    built_in, child, replied, Branched, ForkCapability, ForkState, Pending, Seed, FORK_COMMAND,
    SUMMARY_COMMAND,
};
use horsie_agent::capabilities::state::{CapabilityEvent, CapabilityState};
use horsie_agent::capabilities::{Capabilities, Capability, SessionReply, SessionRequest};
use horsie_agent::ids::{AgentId, RunnerId, RunnerKind};
use horsie_agent::runners::{
    AgentFacts, AgentSettings, ChildMsg, ChildOutcome, ForkMode, RunnerArgs, SubAgentOutcome,
};

/// The settings of an agent with nothing configured.
fn settings() -> AgentSettings {
    AgentSettings {
        model: "m".to_string(),
        max_iterations: None,
        max_retries: 3,
        allowed_tools: None,
        use_plugins: None,
        plugins: vec![],
        auto_compact: None,
        max_concurrent_subagents: None,
    }
}

/// What loading an agent that found nothing leaves behind.
fn facts() -> AgentFacts {
    AgentFacts { agents: None }
}

/// The names one capability adds to an empty toolbox.
fn advertised_by(cap: &Capability, facts: &AgentFacts) -> Vec<String> {
    cap.layer(vec![], facts).into_iter().map(|s| s.name).collect()
}

/// A conversation that can branch.
fn cap() -> ForkCapability {
    ForkCapability::new(AgentId::new_v4(), settings())
}

/// Journal one event.
fn folded(fork: ForkState, event: CapabilityEvent) -> ForkState {
    let mut state = CapabilityState::new(Capabilities::new(vec![]));
    state.fork = fork;
    state.apply(event).fork
}

/// Branch, and let the session say yes.
fn forked(c: &ForkCapability, mode: ForkMode) -> (ForkState, RunnerId) {
    let Branched::Ask { call, pending } = c.branched(mode, "look into it") else {
        panic!("expected an ask");
    };
    let fork = pending.fork;
    let state = folded(
        ForkState::default(),
        CapabilityEvent::ForkRequested { call: call.clone(), pending },
    );
    let branch = replied(&state, &SessionReply::Done { call }).expect("mine");
    assert_eq!(branch.told(), format!("Forked: {}", fork.text()));
    (
        folded(state, CapabilityEvent::ForkCreated { call: branch.call().to_string() }),
        fork,
    )
}

#[test]
fn forking_asks_for_a_conversation_branched_from_this_agent() {
    let c = cap();
    let Branched::Ask { call, pending } = c.branched(ForkMode::Copy, "  look into the flake  ")
    else {
        panic!("expected a branch to be asked for");
    };
    assert_eq!(
        call,
        pending.fork.text(),
        "the dedupe key has to name the fork a replay would re-ask for"
    );

    let SessionRequest::StartRunner { call: asked, id, kind, args } = c.request(&call, &pending)
    else {
        panic!("expected a runner to be asked for");
    };
    assert_eq!(id, pending.fork, "the log records a fork nothing was asked for");
    assert_eq!(asked, call);
    assert_eq!(kind, RunnerKind::Conversation);
    let RunnerArgs::Conversation { agent, seed, message, .. } = args.as_ref() else {
        panic!("expected conversation args, got {args:?}");
    };
    assert_ne!(agent.0, pending.fork.0);
    assert_eq!(*agent, pending.agent);
    assert_eq!(message, "look into the flake");
    let seed = seed.as_ref().expect("a fork has a branch point");
    assert_eq!(seed.source, c.agent, "the branch names the wrong log");
    assert_eq!(seed.source_seq, 0);
    assert_eq!(seed.mode, ForkMode::Copy);

    let state = folded(
        ForkState::default(),
        CapabilityEvent::ForkRequested { call: call.clone(), pending: pending.clone() },
    );
    assert!(state.seeding().is_empty());
    assert_eq!(state.pending(&call), Some(&pending));
}

#[test]
fn summary_n_fork_seeds_with_a_summary() {
    let c = cap();
    let Branched::Ask { call, pending } = c.branched(ForkMode::Summary, "carry on elsewhere")
    else {
        panic!("expected a branch to be asked for");
    };
    let SessionRequest::StartRunner { args, .. } = c.request(&call, &pending) else {
        panic!("expected a runner to be asked for");
    };
    let RunnerArgs::Conversation { seed, .. } = args.as_ref() else {
        panic!("expected conversation args, got {args:?}");
    };
    assert_eq!(seed.as_ref().map(|s| s.mode), Some(ForkMode::Summary));
}

#[test]
fn an_empty_message_is_refused_and_journals_nothing() {
    let Branched::Told { reason } = cap().branched(ForkMode::Copy, "   ") else {
        panic!("expected a refusal, not a branch");
    };
    assert!(reason.contains("/fork"), "the refusal names the command that was typed: {reason}");
    assert_eq!(
        reason,
        "/fork needs a message saying what the new conversation should do"
    );
    let Branched::Told { reason } = cap().branched(ForkMode::Summary, "\t\n") else {
        panic!("expected a refusal, not a branch");
    };
    assert_eq!(
        reason,
        "/summary-n-fork needs a message saying what the new conversation should do"
    );
}

#[test]
fn a_refusal_from_the_session_reaches_the_person_and_retracts_the_intent() {
    let c = cap();
    let Branched::Ask { call, pending } = c.branched(ForkMode::Copy, "look into it") else {
        panic!("expected a branch to be asked for");
    };
    let state = folded(
        ForkState::default(),
        CapabilityEvent::ForkRequested { call: call.clone(), pending },
    );
    let branch = replied(
        &state,
        &SessionReply::Refused { call: call.clone(), reason: "this session cannot be forked".into() },
    )
    .expect("the reply answers a request I made");
    assert_eq!(branch.told(), "this session cannot be forked");

    let state = folded(state, CapabilityEvent::ForkDropped { call: branch.call().to_string() });
    assert!(state.pending(&call).is_none(), "the intent was not retracted");
    assert!(state.seeding().is_empty(), "a refused fork is not in flight");
}

#[test]
fn a_branch_the_session_never_answered_is_asked_again_on_load() {
    let c = cap();
    let source = c.agent;
    let Branched::Ask { call, pending } = c.branched(ForkMode::Copy, "look into it") else {
        panic!("expected a branch to be asked for");
    };
    let (first_call, fork, branch_agent) = (call.clone(), pending.fork, pending.agent);
    let state = folded(ForkState::default(), CapabilityEvent::ForkRequested { call, pending });

    let (c, state) = (c.clone(), state.clone());
    let asks = c.reloaded(&state);
    let [SessionRequest::StartRunner { call, id, args, .. }] = asks.as_slice() else {
        panic!("expected exactly one re-ask, got {asks:?}");
    };
    assert_eq!(*call, first_call, "the answer would reach nobody");
    assert_eq!(*id, fork, "the re-ask names a fork the log never recorded");
    let RunnerArgs::Conversation { agent, seed, message, .. } = args.as_ref() else {
        panic!("expected conversation args, got {args:?}");
    };
    assert_eq!(*agent, branch_agent);
    assert_eq!(message, "look into it");
    let seed = seed.as_ref().expect("a fork has a branch point");
    assert_eq!(seed.source, source, "the re-ask branches from nowhere");
    assert_eq!(seed.mode, ForkMode::Copy);
}

#[test]
fn a_branch_the_session_answered_is_not_asked_again() {
    let c = cap();
    let (state, _) = forked(&c, ForkMode::Copy);
    assert!(c.reloaded(&state).is_empty());
}

#[test]
fn a_reply_for_a_request_i_never_made_is_not_mine() {
    let (state, _) = forked(&cap(), ForkMode::Copy);
    assert!(replied(&state, &SessionReply::Done { call: "someone-else".into() }).is_none());
}

#[test]
fn a_seed_that_lands_clears_the_pending_entry() {
    let c = cap();
    let (state, fork) = forked(&c, ForkMode::Copy);
    assert!(state.seeding().contains(&fork));
    let Some(Seed::Landed { fork: landed }) = child(&state, &ChildMsg::Ready { child: fork }) else {
        panic!("expected the seed to have landed");
    };
    assert_eq!(landed, fork);
    let state = folded(state, CapabilityEvent::ForkSeeded { fork: landed });
    assert!(state.seeding().is_empty());
}

#[test]
fn a_seed_that_fails_is_recorded_and_delivers_nothing() {
    let c = cap();
    let (state, fork) = forked(&c, ForkMode::Copy);
    let seed = child(
        &state,
        &ChildMsg::Failed { child: fork, error: "the copy failed".into() },
    );
    let Some(Seed::Failed { fork: failed, error }) = &seed else {
        panic!("expected a seed failure, got {seed:?}");
    };
    assert_eq!(error, "the copy failed");
    let state = folded(
        state,
        CapabilityEvent::ForkSeedFailed { fork: *failed, error: error.clone() },
    );
    assert!(state.seeding().is_empty());
}

#[test]
fn a_child_i_did_not_create_is_not_mine() {
    let (state, _) = forked(&cap(), ForkMode::Copy);
    assert!(child(&state, &ChildMsg::Ready { child: RunnerId::new_v4() }).is_none());
}

#[test]
fn an_outcome_is_never_a_forks_business() {
    let (state, fork) = forked(&cap(), ForkMode::Copy);
    assert!(child(
        &state,
        &ChildMsg::Outcome {
            child: fork,
            outcome: ChildOutcome::SubAgent(SubAgentOutcome::Completed {
                label: "l".into(),
                report: "r".into(),
            }),
        }
    )
    .is_none());
}

#[test]
fn it_advertises_no_tool() {
    assert!(advertised_by(&Capability::Fork(cap()), &facts()).is_empty());
}

#[test]
fn a_copied_state_keeps_the_seed_in_flight() {
    let c = cap();
    let source = c.agent;
    let (state, fork) = forked(&c, ForkMode::Copy);
    let (back, state) = (c.clone(), state.clone());
    assert_eq!(state.seeding(), vec![fork]);
    assert_eq!(back.agent, source);
}

/// The built-ins, by mode.
#[test]
fn each_mode_has_its_built_in() {
    assert_eq!(built_in(ForkMode::Copy), FORK_COMMAND);
    assert_eq!(built_in(ForkMode::Summary), SUMMARY_COMMAND);
    assert_eq!(FORK_COMMAND, "fork");
    assert_eq!(SUMMARY_COMMAND, "summary-n-fork");
}

/// A branch with given ids is asked for under the key that names it.
#[test]
fn a_branch_is_asked_for_under_its_own_id() {
    let c = cap();
    let fork = RunnerId(0x0123_4567_89ab_cdef_0123_4567_89ab_cdef);
    let Branched::Ask { call, pending } =
        c.branched_with(ForkMode::Copy, " go ", fork, AgentId(7))
    else {
        panic!("expected an ask");
    };
    assert_eq!(call, "01234567-89ab-cdef-0123-456789abcdef");
    assert_eq!(
        pending,
        Pending { fork, agent: AgentId(7), message: "go".into(), mode: ForkMode::Copy }
    );
}

/// Requests are asked again in the order of their keys, whatever order they
/// were made in.
#[test]
fn branches_are_asked_again_in_the_order_of_their_keys() {
    let c = cap();
    let mut state = ForkState::default();
    for (key, id) in [("b", 2u128), ("a", 1u128)] {
        let Branched::Ask { pending, .. } =
            c.branched_with(ForkMode::Copy, key, RunnerId(id), AgentId(id))
        else {
            panic!("expected an ask");
        };
        state = folded(state, CapabilityEvent::ForkRequested { call: key.to_string(), pending });
    }
    let calls: Vec<String> =
        c.reloaded(&state).iter().map(|r| r.call().to_string()).collect();
    assert_eq!(calls, vec!["a", "b"]);
}
