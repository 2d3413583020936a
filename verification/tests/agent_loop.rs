//! The journal, and what every event leaves behind.

use horsie_agent::commands::{
    AgentCommand, CoreCommand, Handler, ProvidedOutcome, ProvisionCommand, RunCommand, SeedCommand,
};
use horsie_agent::component::{routed_outcome, CommandEffect, StepPhase, StepRun, TurnCtx};
use horsie_agent::components::provision::{CompactionShares, Provision, Selections};
use horsie_agent::components::queue::inbox::Incoming;
use horsie_agent::components::seed::{seed_answer, SeedOutcome, Seeding};
use horsie_agent::components::usage::{UsageState, UsageTotal};
use horsie_agent::components::AgentLoop;
use horsie_agent::context::{ContextError, Contexts};
use horsie_agent::events::{
    AgentDomainEvent, RunEnd, StepFailure, StepKind, StopHookOutcome, SystemPromptSource,
};
use horsie_agent::ids::SessionId;
use horsie_agent::json::Json;
use horsie_agent::model::{
    CompactionTrigger, HookRecord, Message, ToolCallError, ToolSpec, Usage,
};
use horsie_agent::params::AgentParams;
use horsie_agent::state::{AgentLogBody, AgentState};

const NOW: u64 = 1_000;

fn usage(input_tokens: u32, output_tokens: u32) -> Usage {
    Usage { input_tokens, output_tokens }
}

fn started(kind: StepKind) -> AgentState {
    AgentLoop::apply(AgentState::new(), AgentDomainEvent::StepStarted { kind })
}

fn context(system_prompt: &str) -> TurnCtx {
    TurnCtx {
        specs: vec![],
        system_prompt: system_prompt.into(),
        budget: None,
        conversation_id: "c".into(),
        thinking_effort: None,
    }
}

fn spec(name: &str) -> ToolSpec {
    ToolSpec { name: name.into(), description: String::new(), input_schema: "{}".into() }
}

#[test]
fn a_step_is_open_until_something_ends_it() {
    let state = started(StepKind::Agent);
    assert_eq!(state.open_step(), Some((0, &StepKind::Agent)));
    assert!(state.agent_step_is(0));
    assert!(!state.agent_step_is(1));
    let state = AgentLoop::apply(state, AgentDomainEvent::Nudged { at_ms: NOW });
    assert!(state.agent_step_is(0));
    let state = AgentLoop::apply(
        state,
        AgentDomainEvent::StepFailed { reason: StepFailure::TimedOut },
    );
    assert_eq!(state.open_step(), None);
    let state = AgentLoop::apply(state, AgentDomainEvent::StepStarted { kind: StepKind::StopHook });
    assert_eq!(state.open_step(), Some((3, &StepKind::StopHook)));
    let state = AgentLoop::apply(
        state,
        AgentDomainEvent::StopHookCompleted { outcome: StopHookOutcome::Allow },
    );
    assert_eq!(state.open_step(), None);
}

#[test]
fn corrections_are_counted_within_a_run() {
    let mut state = AgentState::new();
    for _ in 0..3 {
        state = AgentLoop::apply(state, AgentDomainEvent::Nudged { at_ms: NOW });
    }
    assert_eq!(state.nudges(), 3);
    let state = AgentLoop::apply(
        state,
        AgentDomainEvent::RunEnded { reason: RunEnd::Cancelled, at_ms: NOW },
    );
    assert_eq!(state.nudges(), 0);
}

#[test]
fn every_event_is_recorded_but_an_adoption() {
    let state = AgentLoop::apply_all(
        AgentState::new(),
        vec![
            AgentDomainEvent::AgentInitialized,
            AgentDomainEvent::RunComplete { iterations: 1, at_ms: NOW },
        ],
    );
    assert_eq!(state.history.len(), 2);
    assert_eq!((state.history[0].seq, state.history[1].seq), (0, 1));
    let adopted = AgentLoop::apply(
        AgentState::new(),
        AgentDomainEvent::Seeded { state: Box::new(state), seed: None },
    );
    assert_eq!(adopted.history.len(), 2, "the adopted history is the account");
}

#[test]
fn what_a_run_costs_is_banked_with_its_message() {
    let state = AgentLoop::apply_all(
        AgentState::new(),
        vec![
            AgentDomainEvent::MessageComplete {
                message: Message::assistant_text("m".into(), "hi".into(), NOW),
                usage: usage(100, 7),
            },
            AgentDomainEvent::Compacted {
                summary: "s".into(),
                carried_state: "c".into(),
                retained_from_message_id: None,
                trigger: CompactionTrigger::Auto,
                instructions: None,
                tokens_before: 100,
                tokens_after: 10,
                usage: Some(usage(50, 3)),
                at_ms: NOW,
            },
            AgentDomainEvent::SeedSummaryTaken {
                request_id: "r".into(),
                sub_sessions: vec![],
                result: Ok("s".into()),
                usage: Some(usage(1, 1)),
                at_ms: NOW,
            },
        ],
    );
    assert_eq!(state.usage.total(), UsageTotal { input_tokens: 151, output_tokens: 11 });
    assert_eq!(state.usage.context_tokens(), 100, "only a turn's own prompt is the context");
    assert_eq!(state.usage.last_turn(), Some(&usage(100, 7)));
    assert_eq!(state.log.len(), 2);
    assert!(matches!(state.log[1].body, AgentLogBody::Compacted { .. }));
}

#[test]
fn a_branch_keeps_the_context_and_not_the_bill() {
    let mut bill = UsageState::default();
    bill.step_completed(usage(40, 2));
    bill.bank(&usage(u32::MAX, 0));
    assert_eq!(bill.total().input_tokens, 40 + u64::from(u32::MAX));
    let carried = bill.carried().expect("it carries");
    assert_eq!(carried.total(), UsageTotal::default());
    assert_eq!(carried.context_tokens(), 40);
    assert_eq!(carried.last_turn(), None);
    bill.context_is(5);
    assert_eq!(bill.context_tokens(), 5);
}

#[test]
fn a_hook_is_shown_in_the_transcript() {
    let record = || HookRecord {
        tool_call_id: None,
        hook: "PreToolUse".into(),
        outcome: "allowed".into(),
    };
    let state = AgentLoop::apply(
        AgentState::new(),
        AgentDomainEvent::HookRan { record: record(), seq: 0, at_ms: NOW },
    );
    assert_eq!(state.log.len(), 1);
    assert_eq!(state.log[0].body, AgentLogBody::Hook(record()));
}

#[test]
fn an_agent_is_seeded_once() {
    let history = || Box::new(started(StepKind::Agent));
    let seed = Message::assistant_text("s".into(), "so far".into(), NOW);
    let repair = Message::tool_result("a", "gone".into(), true, vec![], NOW);
    let first = Incoming::User { id: "u".into(), text: "go on".into(), artifacts: vec![] };
    let fresh = AgentState::new();
    let effect = Seeding::seed_from(&fresh, history(), Some(seed), vec![repair], first, NOW)
        .expect("a fresh agent adopts a history");
    assert!(effect.snapshot);
    assert_eq!(effect.events.len(), 3);
    let state = AgentLoop::apply_all(fresh, effect.events);
    assert_eq!(state.log.len(), 3, "the seed, the repair and the queued message");
    assert_eq!(state.pending_incoming().len(), 1);
    let again = Incoming::User { id: "u".into(), text: "go on".into(), artifacts: vec![] };
    assert!(Seeding::seed_from(&state, history(), None, vec![], again, NOW).is_none());
}

#[test]
fn a_summary_answers_the_step_that_took_it() {
    let state = started(StepKind::SeedSummary { request_id: "f:g".into() });
    let mut run = StepRun::new(true);
    assert_eq!(Seeding::take_summary(&mut run, 0), None, "nothing is prepared");
    run.ctx = Some(context(""));
    assert_eq!(Seeding::take_summary(&mut run, 0), Some(0));
    assert_eq!(run.running, Some(StepPhase::SeedSummary));
    let ids = || vec!["f".to_string(), "g".to_string()];
    let stale = Seeding::summary_taken(
        &state, &mut run, 5, ids(), vec![], Ok("s".into()), None, NOW,
    );
    assert_eq!(stale, CommandEffect::none());
    let effect = Seeding::summary_taken(
        &state, &mut run, 0, ids(), vec![SessionId(1)], Err("no".into()), None, NOW,
    );
    assert_eq!(
        effect.events,
        vec![
            AgentDomainEvent::SeedSummaryTaken {
                request_id: "f:g".into(),
                sub_sessions: vec![SessionId(1)],
                result: Err("no".into()),
                usage: None,
                at_ms: NOW,
            },
            AgentDomainEvent::Consumed { ids: ids(), at_ms: NOW },
        ]
    );
    assert_eq!(run.running, None);
}

#[test]
fn a_setup_records_its_prompt_once() {
    let state = started(StepKind::Initialize);
    let mut run = StepRun::new(true);
    assert_eq!(Provision::start(&mut run, 0, true), 0);
    assert_eq!(run.running, Some(StepPhase::Initialize));
    let effect = Provision::provided(&state, &mut run, 0, true, Ok(context("be good")), NOW);
    assert_eq!(
        effect.events,
        vec![
            AgentDomainEvent::SystemPromptRecorded {
                source: SystemPromptSource::InitialContext,
                content: "be good".into(),
            },
            AgentDomainEvent::AgentInitialized,
        ]
    );
    assert!(!run.ctx_stale);
    let state = AgentLoop::apply_all(state, effect.events);
    assert_eq!(state.system_prompt(), "be good");

    let state = AgentLoop::apply(state, AgentDomainEvent::StepStarted { kind: StepKind::Connect });
    Provision::start(&mut run, 3, false);
    let effect = Provision::provided(&state, &mut run, 3, false, Ok(context("be bad")), NOW);
    assert_eq!(effect.events, vec![AgentDomainEvent::ConnectionCompleted]);
    assert_eq!(run.ctx.expect("prepared").system_prompt, "be good");
}

#[test]
fn a_failed_setup_says_whether_it_is_for_good() {
    let state = started(StepKind::Initialize);
    let mut run = StepRun::new(true);
    Provision::start(&mut run, 0, true);
    let effect =
        Provision::provided(&state, &mut run, 0, true, Err(ContextError::terminal("gone".into())), NOW);
    assert_eq!(
        effect.events,
        vec![
            AgentDomainEvent::StepFailed { reason: StepFailure::Provider("gone".into()) },
            AgentDomainEvent::RunEnded {
                reason: RunEnd::Failed { error: "gone".into(), recoverable: true, terminal: true },
                at_ms: NOW,
            },
        ]
    );
    assert!(run.ctx.is_none());
    let stale = Provision::provided(&state, &mut run, 0, false, Ok(context("")), NOW);
    assert_eq!(stale, CommandEffect::none());
}

#[test]
fn a_run_is_put_together_from_what_is_selected() {
    let params = AgentParams {
        system_prompt: Some("configured".into()),
        tools: None,
        thinking_effort: None,
        max_iterations: None,
        max_retries: 0,
        requires_result: false,
        park_on_outstanding_work: false,
    };
    let mut contexts = Contexts::fixed(vec![spec("bash"), spec("read_file"), spec("set_timer")]);
    contexts.context_window = Some(1000);
    let ctx = Provision::assemble(
        vec![vec![spec("set_timer")]],
        contexts,
        Selections {
            allowed: vec!["bash".into(), "read_file".into()],
            narrowed: Some(vec!["read_file".into()]),
            governed: vec!["bash".into(), "read_file".into()],
        },
        &params,
        &CompactionShares { trigger_at_percent: 80, retain_percent: 20 },
        "c".into(),
    );
    let names: Vec<&str> = ctx.specs.iter().map(|s| s.name.as_str()).collect();
    assert_eq!(names, vec!["set_timer", "read_file"]);
    assert_eq!(ctx.system_prompt, "configured");
    let budget = ctx.budget.expect("the card declares a window");
    assert_eq!(
        (budget.context_window, budget.trigger_at_percent, budget.retain_percent),
        (1000, 80, 20)
    );
}

#[test]
fn a_stop_makes_every_callback_stale() {
    let mut run = StepRun::new(true);
    let generation = run.begin(StepPhase::RunningTools, 4);
    assert!(run.live(4) && !run.live(5));
    run.stop();
    assert!(!run.live(4));
    assert!(!run.finished(4));
    assert_ne!(run.begin(StepPhase::RunningTools, 5), generation);
}

#[test]
fn a_command_knows_who_decides_it() {
    assert_eq!(AgentCommand::Core(CoreCommand::Shutdown).handler(), Handler::Stop);
    assert_eq!(AgentCommand::Core(CoreCommand::Advance).handler(), Handler::Agent);
    assert_eq!(
        AgentCommand::Run(RunCommand::StopHookDone {
            marker_seq: 0,
            result: StopHookOutcome::Allow
        })
        .handler(),
        Handler::Agent
    );
    assert_eq!(
        AgentCommand::Run(RunCommand::StreamDelta { marker_seq: 0, text: String::new() }).handler(),
        Handler::Turn
    );
}

#[test]
fn a_routed_call_nobody_answers_is_refused() {
    assert!(matches!(routed_outcome(None), Err(ToolCallError::ExecutionFailed(_))));
    let given = routed_outcome(Some(Ok(Json::Bool(true)))).expect("a value");
    assert_eq!(given.value, Json::Bool(true));
    assert!(given.artifacts.is_empty());
}

#[test]
fn whoever_asked_for_a_history_is_told_whether_it_was_written() {
    assert_eq!(seed_answer(Some(Ok(()))), Ok(()));
    assert_eq!(
        seed_answer(Some(Err("disk full".into()))),
        Err("persist the sub session's history: disk full".into())
    );
    assert_eq!(
        seed_answer(None),
        Err("the sub session's history was never written".into())
    );
}

#[test]
fn a_seeding_command_reads_adopts_or_lands() {
    let mut run = StepRun::new(true);
    let fresh = AgentState::new();
    let snapshot = Seeding::handle(SeedCommand::Snapshot { at_seq: 4 }, &fresh, &mut run, vec![], NOW);
    assert_eq!(snapshot, SeedOutcome::Snapshot { at_seq: 4 });

    let adopt = || SeedCommand::SeedFrom {
        state: Box::new(started(StepKind::Agent)),
        seed: Some(Box::new(Message::assistant_text("s".into(), "so far".into(), NOW))),
        message: Incoming::User { id: "u".into(), text: "go on".into(), artifacts: vec![] },
    };
    let SeedOutcome::Adopt(effect) = Seeding::handle(adopt(), &fresh, &mut run, vec![], NOW) else {
        panic!("a fresh agent adopts a history");
    };
    assert!(effect.snapshot);
    let state = AgentLoop::apply_all(fresh, effect.events);
    assert_eq!(state.log.len(), 2);
    assert_eq!(
        Seeding::handle(adopt(), &state, &mut run, vec![], NOW),
        SeedOutcome::AlreadySeeded
    );

    let state = started(StepKind::SeedSummary { request_id: "f".into() });
    run.ctx = Some(context(""));
    Seeding::take_summary(&mut run, 0);
    let landed = Seeding::handle(
        SeedCommand::SummaryTaken {
            marker_seq: 0,
            consumed: vec!["f".into()],
            sub_sessions: vec![],
            result: Ok("told".into()),
            usage: None,
        },
        &state,
        &mut run,
        vec![],
        NOW,
    );
    let SeedOutcome::Summary(effect) = landed else {
        panic!("a summary lands, got {landed:?}");
    };
    assert_eq!(effect.events.len(), 2);
    assert_eq!(run.running, None);
}

#[test]
fn a_setup_command_publishes_what_it_prepared() {
    let state = started(StepKind::Initialize);
    let mut run = StepRun::new(true);
    Provision::start(&mut run, 0, true);
    let report = || {
        ProvisionCommand::Provided(Box::new(ProvidedOutcome {
            marker_seq: 0,
            initializing: true,
            outcome: Ok(Box::new(context(""))),
        }))
    };
    let effect = Provision::handle(report(), &state, &mut run, NOW);
    assert_eq!(effect.events, vec![AgentDomainEvent::AgentInitialized]);
    assert_eq!(run.ctx, Some(context("")));
    run.stop();
    assert_eq!(Provision::handle(report(), &state, &mut run, NOW), CommandEffect::none());
}
