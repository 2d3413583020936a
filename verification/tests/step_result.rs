//! How a workflow step says it is done.

use horsie_agent::capabilities::ask_user::{AskUserCapability, TOOL};
use horsie_agent::capabilities::claims::{Answering, CapCommand};
use horsie_agent::capabilities::decision::{Act, Decision, Msg, TurnEvent};
use horsie_agent::capabilities::state::CapabilityEvent;
use horsie_agent::capabilities::step_declaration::{
    validate_result, StepField, StepFieldType, StepOutcome,
};
use horsie_agent::capabilities::step_result::{
    Command, StepResultCapability, SUBMIT_RESULT_TOOL,
};
use horsie_agent::capabilities::{equip, Capabilities, Capability};
use horsie_agent::json::{Json, Number};
use horsie_agent::runners::AgentFacts;

/// The JSON this text spells.
fn json(text: &str) -> Json {
    convert(&serde_json::from_str(text).expect("valid JSON"))
}

fn convert(value: &serde_json::Value) -> Json {
    match value {
        serde_json::Value::Null => Json::Null,
        serde_json::Value::Bool(b) => Json::Bool(*b),
        serde_json::Value::Number(n) => Json::Number(match (n.as_u64(), n.as_i64()) {
            (Some(n), _) => Number::PosInt(n),
            (None, Some(n)) => Number::NegInt(n),
            (None, None) => Number::Fraction(n.to_string()),
        }),
        serde_json::Value::String(s) => Json::String(s.clone()),
        serde_json::Value::Array(items) => Json::Array(items.iter().map(convert).collect()),
        serde_json::Value::Object(members) => Json::Object(
            members
                .iter()
                .map(|(name, value)| (name.clone(), convert(value)))
                .collect(),
        ),
    }
}

/// What loading an agent that found nothing leaves behind.
fn facts() -> AgentFacts {
    AgentFacts { agents: None }
}

/// The names one capability adds to an empty toolbox.
fn advertised_by(cap: &Capability, facts: &AgentFacts) -> Vec<String> {
    cap.layer(vec![], facts).into_iter().map(|s| s.name).collect()
}

fn outcomes() -> Vec<StepOutcome> {
    vec![
        StepOutcome { value: "p0".into(), description: "drop everything".into() },
        StepOutcome { value: "p2".into(), description: "file it".into() },
    ]
}

fn fields() -> Vec<StepField> {
    vec![StepField {
        name: "owner".into(),
        kind: StepFieldType::String,
        description: "who takes it".into(),
        required: Some(true),
    }]
}

fn cap(interactive: bool) -> StepResultCapability {
    StepResultCapability::new(outcomes(), fields(), interactive)
}

fn submitted(c: &StepResultCapability, id: &str, input: Json) -> Decision {
    c.command(&CapCommand::StepResult(
        Command::Submit { input },
        Answering { call: id.to_string() },
    ))
    .expect("mine")
}

fn schema(c: StepResultCapability) -> serde_json::Value {
    let spec = Capability::StepResult(c)
        .layer(vec![], &facts())
        .into_iter()
        .find(|s| s.name == SUBMIT_RESULT_TOOL)
        .expect("a step is equipped to submit");
    serde_json::from_str(&spec.input_schema).expect("the schema is JSON")
}

#[test]
fn a_valid_submission_concludes_with_the_submitted_output() {
    let text = "{\"outcome\": \"p0\", \"description\": \"found the flake\", \"owner\": \"shawn\"}";
    let d = submitted(&cap(false), "call-1", json(text));

    let [CapabilityEvent::StepResultSubmitted { output: journaled }] = d.events.as_slice() else {
        panic!("expected one Submitted, got {:?}", d.events)
    };
    assert_eq!(journaled, &json(text), "the journal must carry it verbatim");

    let [Act::Conclude { output: concluded }] = d.acts.as_slice() else {
        panic!("a submission that did not conclude: {:?}", d.acts)
    };
    assert_eq!(concluded, &json(text), "the act must carry it verbatim");
}

#[test]
fn an_undeclared_outcome_is_refused_and_journals_nothing() {
    let d = submitted(
        &cap(false),
        "call-1",
        json("{\"outcome\": \"p9\", \"description\": \"x\", \"owner\": \"shawn\"}"),
    );
    assert!(d.events.is_empty(), "nothing undeclared reaches the log");
    let [Act::Refuse { call, reason: text }] = d.acts.as_slice() else {
        panic!("expected one Refuse, got {:?}", d.acts)
    };
    assert_eq!(call, "call-1");
    assert!(
        text.contains("p9") && text.contains("p0"),
        "the validator's own words go back so the model can correct itself: {text}"
    );
    assert!(text.starts_with("submit_result was rejected: "));
}

#[test]
fn a_missing_required_field_is_refused() {
    let d = submitted(
        &cap(false),
        "call-1",
        json("{\"outcome\": \"p0\", \"description\": \"did it\"}"),
    );
    assert!(d.events.is_empty());
    let [Act::Refuse { reason: text, .. }] = d.acts.as_slice() else {
        panic!("expected one Refuse, got {:?}", d.acts)
    };
    assert!(text.contains("'owner' is required"), "{text}");
}

#[test]
fn the_result_tool_advertises_this_steps_own_outcomes() {
    let schema = schema(cap(false));
    assert_eq!(schema["properties"]["outcome"]["enum"].to_string(), "[\"p0\",\"p2\"]");

    let rendered = schema.to_string();
    assert!(
        !rendered.contains("success") && !rendered.contains("failure"),
        "the step was advertised with the default outcomes: {rendered}"
    );
    let doc = schema["properties"]["outcome"]["description"]
        .as_str()
        .expect("the enum alone says what may be said, not what any of it means");
    assert!(doc.contains("p0: drop everything"), "{doc}");
    assert!(doc.contains("p2: file it"), "{doc}");
    assert_eq!(schema["properties"]["owner"]["type"], "string");
    assert!(schema["required"]
        .as_array()
        .expect("a list")
        .iter()
        .any(|name| name == "owner"));
}

#[test]
fn a_declared_list_field_is_advertised_as_an_array_of_strings() {
    let c = StepResultCapability::new(
        outcomes(),
        vec![StepField {
            name: "files".into(),
            kind: StepFieldType::StringList,
            description: "what changed".into(),
            required: Some(true),
        }],
        false,
    );
    let schema = schema(c);
    assert_eq!(schema["properties"]["files"]["type"], "array");
    assert_eq!(schema["properties"]["files"]["items"]["type"], "string");
}

#[test]
fn the_step_says_what_it_is_and_equips_no_layer() {
    assert_eq!(cap(false).prompt().key, "step_result");
    assert!(cap(false).prompt().body.starts_with("# Workflow step"));
}

#[test]
fn an_interactive_step_is_equipped_to_ask() {
    let caps = Capabilities::new(vec![
        Capability::AskUser(AskUserCapability::new()),
        Capability::StepResult(cap(true)),
    ]);
    let degraded = equip(vec![]).expect("nothing fatal");
    assert!(degraded.is_empty());

    let names: Vec<String> = caps.layer(vec![], &facts()).into_iter().map(|s| s.name).collect();
    assert!(names.contains(&TOOL.to_string()));
    assert!(names.contains(&SUBMIT_RESULT_TOOL.to_string()));
}

#[test]
fn a_copied_capability_keeps_its_declaration() {
    let caps = Capabilities::new(vec![Capability::StepResult(cap(true))]);
    let read = caps.clone();
    let [Capability::StepResult(back)] = read.iter().as_slice() else {
        panic!("the copy changed which capability this is");
    };
    assert_eq!(
        back.outcomes.iter().map(|o| o.value.as_str()).collect::<Vec<_>>(),
        vec!["p0", "p2"]
    );
    assert_eq!(back.fields.len(), 1);
    assert!(back.interactive);
}

#[test]
fn another_capabilitys_command_is_not_mine() {
    let c = cap(false);
    let someone_elses =
        CapCommand::WorkflowStatus { answering: Answering { call: "t1".to_string() } };
    assert!(c.command(&someone_elses).is_none());
    assert!(c.handle(&Msg::Turn(TurnEvent::Ended)).is_none());
}

#[test]
fn it_advertises_its_own_result_tool() {
    assert_eq!(
        advertised_by(&Capability::StepResult(cap(false)), &facts()),
        vec![SUBMIT_RESULT_TOOL]
    );
}

/// Everything a result can be refused for, in the order it is looked at.
#[test]
fn each_refusal_says_what_is_wrong() {
    let refused = |text: &str| {
        validate_result(
            &json(text),
            &outcomes(),
            &[
                StepField {
                    name: "owner".into(),
                    kind: StepFieldType::String,
                    description: String::new(),
                    required: Some(true),
                },
                StepField {
                    name: "files".into(),
                    kind: StepFieldType::StringList,
                    description: String::new(),
                    required: None,
                },
            ],
        )
    };
    assert_eq!(refused("{}"), Err("'outcome' is required".into()));
    assert_eq!(
        refused("{\"outcome\": \"p9\"}"),
        Err("outcome 'p9' is not one of p0, p2".into())
    );
    assert_eq!(
        refused("{\"outcome\": \"p0\"}"),
        Err("'description' is required".into())
    );
    assert_eq!(
        refused("{\"outcome\": \"p0\", \"description\": \"d\"}"),
        Err("'owner' is required".into())
    );
    assert_eq!(
        refused("{\"outcome\": \"p0\", \"description\": \"d\", \"owner\": 7}"),
        Err("'owner' must be a string".into())
    );
    assert_eq!(
        refused("{\"outcome\": \"p0\", \"description\": \"d\", \"owner\": \"o\", \"files\": [1]}"),
        Err("'files' must be a list of strings".into())
    );
    assert_eq!(
        refused("{\"outcome\": \"p0\", \"description\": \"d\", \"owner\": \"o\"}"),
        Ok(())
    );
}
