//! What an agent is equipped with, and which of it answers a call.

use horsie_agent::capabilities::ask_user::{AskUserCapability, Mute};
use horsie_agent::capabilities::claims::{claiming, Answering, CapCommand, ClaimedTool, Claim};
use horsie_agent::capabilities::decision::Act;
use horsie_agent::capabilities::state::CapabilityState;
use horsie_agent::capabilities::step_declaration::StepOutcome;
use horsie_agent::capabilities::step_result::{StepResultCapability, SUBMIT_RESULT_TOOL};
use horsie_agent::capabilities::sub_agent::SubAgentCapability;
use horsie_agent::capabilities::task_list::TaskListCapability;
use horsie_agent::capabilities::timers::TimersCapability;
use horsie_agent::capabilities::title::TitleCapability;
use horsie_agent::capabilities::workflow::WorkflowCapability;
use horsie_agent::capabilities::{
    dispatch, equip, Capabilities, Capability, Degraded, SetupError,
};
use horsie_agent::json::Json;
use horsie_agent::model::ToolSpec;
use horsie_agent::runners::{AgentFacts, AgentSettings};

/// The settings of an agent with nothing configured.
fn settings() -> AgentSettings {
    AgentSettings {
        model: "m".to_string(),
        max_iterations: None,
        max_retries: 3,
        allowed_tools: None,
        use_plugins: None,
        plugins: vec![],
        auto_compact: None,
        max_concurrent_subagents: None,
    }
}

fn facts() -> AgentFacts {
    AgentFacts { agents: None }
}

fn to(call: &str) -> Answering {
    Answering { call: call.to_string() }
}

/// A step with one outcome, which its advertised schema shows.
fn step(outcome: &str) -> Capability {
    Capability::StepResult(StepResultCapability::new(
        vec![StepOutcome { value: outcome.into(), description: String::new() }],
        vec![],
        false,
    ))
}

fn advertised(caps: &Capabilities) -> Vec<String> {
    caps.layer(vec![], &facts()).into_iter().map(|s| s.name).collect()
}

/// Which capability a call to `name` becomes a command for.
fn claimed_by(caps: &Capabilities, name: &str) -> Option<&'static str> {
    caps.route(&facts(), name, Json::Object(vec![]), to("t1")).map(|cmd| cmd.capability())
}

#[test]
fn a_call_becomes_the_command_of_the_capability_that_claimed_it() {
    let caps = Capabilities::new(vec![
        Capability::Title(TitleCapability::new()),
        Capability::Timers(TimersCapability),
    ]);
    assert_eq!(
        claimed_by(&caps, "list_timers"),
        Some("timers"),
        "a claimed name did not become its capability's command"
    );
}

#[test]
fn a_name_nobody_claimed_becomes_no_command() {
    let caps = Capabilities::new(vec![Capability::Timers(TimersCapability)]);
    assert!(claimed_by(&caps, "nope").is_none());
}

#[test]
fn a_command_names_the_capability_that_answers_it() {
    assert_eq!(CapCommand::TimerList { answering: to("t1") }.capability(), "timers");
    assert_eq!(CapCommand::WorkflowStatus { answering: to("t1") }.capability(), "workflow");
}

#[test]
fn a_copied_set_carries_the_config() {
    let caps = Capabilities::new(vec![
        Capability::AskUser(AskUserCapability::unattended()),
        Capability::SubAgent(SubAgentCapability::new(settings(), 3)),
    ]);
    let list = caps.clone();
    assert_eq!(list, caps);
    let [Capability::AskUser(ask), Capability::SubAgent(sub)] = list.iter().as_slice() else {
        panic!("the clone changed which capabilities these are");
    };
    assert_eq!(
        ask.mute,
        Some(Mute::Unattended),
        "the clone un-muted an agent nobody is watching"
    );
    assert_eq!(sub.depth, 3, "the clone lost the depth its gate is answered from");
}

#[test]
fn push_front_puts_a_fixed_name_ahead_of_the_open_namespace() {
    let mut caps = Capabilities::new(vec![step("second")]);
    caps.push_front(step("first"));
    assert_eq!(caps.iter().len(), 2);
    assert_eq!(
        advertised(&caps),
        vec![SUBMIT_RESULT_TOOL],
        "a name claimed twice is advertised once, by whoever will answer it"
    );
    assert!(caps.layer(vec![], &facts())[0].input_schema.contains("first"));
}

#[test]
fn the_first_capability_in_the_list_wraps_outermost() {
    let caps = Capabilities::new(vec![step("the first one's"), step("the second one's")]);
    let specs = caps.layer(vec![], &facts());
    let [spec] = specs.as_slice() else {
        panic!("one name, advertised once, got {specs:?}");
    };
    assert!(
        spec.input_schema.contains("the first one's"),
        "the outermost layer is not the first capability"
    );
    assert!(!spec.input_schema.contains("the second one's"));
}

#[test]
fn an_unclaimed_name_passes_straight_through_the_layers() {
    let caps = Capabilities::new(vec![
        Capability::Timers(TimersCapability),
        Capability::TaskList(TaskListCapability::new()),
    ]);
    let sandbox = vec![ToolSpec {
        name: "bash".into(),
        description: String::new(),
        input_schema: "{\"type\":\"object\"}".into(),
    }];
    assert!(caps.route(&facts(), "bash", Json::Null, to("t1")).is_none());
    let specs = caps.layer(sandbox, &facts());
    assert!(specs.iter().any(|s| s.name == "bash"), "the sandbox is still there to answer");
}

#[test]
fn an_empty_set_claims_nothing() {
    let caps = Capabilities::default();
    assert!(caps.is_empty());
    assert!(advertised(&caps).is_empty());
    assert!(!caps.has("timers"));
    assert!(caps.timers().is_none());
    assert!(claimed_by(&caps, "list_timers").is_none());
}

/// A layer hides a tool of the same name behind it.
#[test]
fn a_claim_hides_what_is_behind_it() {
    let inner = vec![
        ToolSpec { name: "bash".into(), description: "b".into(), input_schema: "{}".into() },
        ToolSpec { name: "list_timers".into(), description: "fake".into(), input_schema: "{}".into() },
    ];
    let claims = vec![ClaimedTool::new("list_timers", "real".into(), "{}", Claim::TimerList)];
    let specs = claiming(inner, &claims);
    let shown: Vec<(&str, &str)> =
        specs.iter().map(|s| (s.name.as_str(), s.description.as_str())).collect();
    assert_eq!(shown.iter().filter(|s| s.0 == "list_timers").count(), 1);
    assert!(shown.contains(&("list_timers", "real")));
    assert!(shown.contains(&("bash", "b")));
}

/// A command is answered by the first capability that answers it, and by none
/// where its owner is not equipped.
#[test]
fn a_command_nobody_is_equipped_for_is_not_answered() {
    let ask = || {
        CapCommand::StepResult(
            horsie_agent::capabilities::step_result::Command::Submit { input: Json::Null },
            to("c1"),
        )
    };
    let none = CapabilityState::new(Capabilities::new(vec![Capability::Timers(TimersCapability)]));
    assert!(dispatch(&none, &ask()).is_none());
    let some = CapabilityState::new(Capabilities::new(vec![
        Capability::Workflow(WorkflowCapability),
        step("done"),
    ]));
    let decided = dispatch(&some, &ask()).expect("equipped");
    assert_eq!(
        decided.acts,
        vec![Act::Refuse {
            call: "c1".into(),
            reason: "submit_result was rejected: 'outcome' is required".into()
        }]
    );
}

fn failure(capability: &'static str, fatal: bool) -> SetupError {
    SetupError { capability, reason: "it broke".into(), fatal }
}

/// Only a fatal failure stops an agent; the others are kept in order.
#[test]
fn only_a_fatal_failure_stops_an_agent() {
    let degraded = equip(vec![failure("mcp", false), failure("memory", false)]).expect("starts");
    assert_eq!(degraded, vec![failure("mcp", false), failure("memory", false)]);
    let stopped = equip(vec![failure("mcp", false), failure("runtime", true), failure("memory", true)]);
    assert_eq!(stopped, Err(failure("runtime", true)));

    let noted = Degraded::new().note(failure("mcp", false)).expect("not fatal");
    assert_eq!(noted.into_errors(), vec![failure("mcp", false)]);
    assert!(Degraded::new().note(failure("runtime", true)).is_err());
}

/// The names a set answers to.
#[test]
fn a_set_knows_its_capabilities_by_name() {
    let mut caps = Capabilities::new(vec![Capability::Timers(TimersCapability)]);
    assert!(caps.has("timers") && !caps.has("title"));
    caps.push(Capability::Title(TitleCapability::new()));
    assert!(caps.has("title"));
    assert!(caps.title().is_some() && caps.timers().is_some());
    assert!(caps.ask_user().is_none() && caps.fork().is_none());
    assert!(caps.sub_agent().is_none() && caps.workflow().is_none());
    assert!(caps.step_result().is_none() && caps.task_list().is_none());
}
