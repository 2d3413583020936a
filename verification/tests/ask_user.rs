//! Asking the person: what a question records, what answers it, and what a
//! muted agent is told.

use horsie_agent::capabilities::ask_user::{
    AskUserCapability, Command, Mute, ASK_SCHEMA, NOT_INTERACTIVE_PROMPT_SUFFIX, TOOL,
    UNATTENDED_PROMPT_SUFFIX,
};
use horsie_agent::capabilities::claims::{Answering, CapCommand};
use horsie_agent::capabilities::decision::{Act, Decision, Msg, TurnEvent};
use horsie_agent::capabilities::state::{CapabilityEvent, CapabilityState};
use horsie_agent::capabilities::task_list::TaskListCapability;
use horsie_agent::capabilities::{dispatch, Capabilities, Capability};
use horsie_agent::inbox::{AnswerError, AskAnswer};
use horsie_agent::json::{Json, Number};
use horsie_agent::runners::AgentFacts;

/// The JSON this text spells.
fn json(text: &str) -> Json {
    convert(&serde_json::from_str(text).expect("valid JSON"))
}

fn convert(value: &serde_json::Value) -> Json {
    match value {
        serde_json::Value::Null => Json::Null,
        serde_json::Value::Bool(b) => Json::Bool(*b),
        serde_json::Value::Number(n) => Json::Number(match (n.as_u64(), n.as_i64()) {
            (Some(n), _) => Number::PosInt(n),
            (None, Some(n)) => Number::NegInt(n),
            (None, None) => Number::Fraction(n.to_string()),
        }),
        serde_json::Value::String(s) => Json::String(s.clone()),
        serde_json::Value::Array(items) => Json::Array(items.iter().map(convert).collect()),
        serde_json::Value::Object(members) => Json::Object(
            members
                .iter()
                .map(|(name, value)| (name.clone(), convert(value)))
                .collect(),
        ),
    }
}

/// What loading an agent that found nothing leaves behind.
fn facts() -> AgentFacts {
    AgentFacts { agents: None }
}

/// The names one capability adds to an empty toolbox.
fn advertised_by(cap: &Capability, facts: &AgentFacts) -> Vec<String> {
    cap.layer(vec![], facts).into_iter().map(|s| s.name).collect()
}

fn answering(call: &str) -> Answering {
    Answering { call: call.to_string() }
}

/// The command the `ask_user` layer builds for a question.
fn ask(id: &str, question: &str) -> CapCommand {
    CapCommand::AskUser(
        Command::Ask {
            input: Json::Object(vec![(
                "question".to_string(),
                Json::String(question.to_string()),
            )]),
        },
        answering(id),
    )
}

fn answer(id: &str, text: &str) -> AskAnswer {
    AskAnswer { tool_call_id: id.into(), text: text.into() }
}

fn equipped(cap: AskUserCapability) -> CapabilityState {
    CapabilityState::new(Capabilities::new(vec![Capability::AskUser(cap)]))
}

/// An agent that may ask, with nothing asked yet.
fn attended() -> CapabilityState {
    equipped(AskUserCapability::new())
}

fn command(state: &CapabilityState, cmd: &CapCommand) -> Option<Decision> {
    dispatch(state, cmd)
}

fn handle(state: &CapabilityState, msg: &Msg) -> Option<Decision> {
    state.capabilities.iter()[0].handle(state, msg)
}

fn fold(state: CapabilityState, d: Decision) -> CapabilityState {
    state.apply_all(d.events)
}

/// Park on these questions, the only way there is to get there.
fn parked(questions: &[(&str, &str)]) -> CapabilityState {
    let mut state = attended();
    for (id, q) in questions {
        let d = command(&state, &ask(id, q)).expect("mine");
        state = fold(state, d);
    }
    state
}

fn refusal(d: &Decision) -> String {
    assert!(d.events.is_empty(), "a refusal is not a fact about the agent");
    let [Act::Answer { text, .. }] = d.acts.as_slice() else {
        panic!("expected one answer, got {:?}", d.acts);
    };
    text.clone()
}

#[test]
fn unattended_equips_nothing_and_refuses_the_call() {
    let c = AskUserCapability::unattended();
    let said = c.prompt().expect("told why");
    assert_eq!(said.key, "unattended");
    assert_eq!(said.body, UNATTENDED_PROMPT_SUFFIX);
    assert!(
        advertised_by(&Capability::AskUser(c), &facts()).is_empty(),
        "a muted agent advertises no ask_user"
    );
    assert_eq!(Capability::AskUser(c).layer(vec![], &facts()), vec![], "it adds no tool layer");
    let muted = equipped(c);
    let d = command(&muted, &ask("t1", "which?")).expect("mine even when muted");
    let said = refusal(&d);
    assert!(said.contains("routine"), "{said}");
    let muted = fold(muted, d);
    assert!(muted.ask_user.calls().is_empty(), "a refused ask parks nothing");
}

#[test]
fn a_muted_ask_is_claimed_rather_than_declined() {
    for c in [AskUserCapability::unattended(), AskUserCapability::not_interactive()] {
        let state = CapabilityState::new(Capabilities::new(vec![
            Capability::AskUser(c),
            Capability::TaskList(TaskListCapability::new()),
        ]));
        let d = dispatch(&state, &ask("t1", "which?")).expect("a muted ask that answers nobody");
        assert!(!refusal(&d).is_empty());
    }
}

#[test]
fn a_non_interactive_step_is_not_told_it_is_unattended() {
    let c = AskUserCapability::not_interactive();
    let section = c.prompt().expect("told why");
    assert_eq!(section.key, "not_interactive");
    assert_eq!(section.body, NOT_INTERACTIVE_PROMPT_SUFFIX);
    assert!(
        !section.body.contains("routine") && !section.body.contains("nobody is reading"),
        "a muted step was told nobody is watching: {}",
        section.body
    );
    assert!(advertised_by(&Capability::AskUser(c), &facts()).is_empty());
    assert_eq!(Capability::AskUser(c).layer(vec![], &facts()), vec![], "it adds no tool layer");
    let said = refusal(&command(&equipped(c), &ask("t1", "which?")).expect("mine even when muted"));
    assert!(
        said.contains("step") && !said.contains("routine"),
        "a muted step was refused as though it were a routine: {said}"
    );
}

#[test]
fn an_attended_session_advertises_the_tool_without_equipping_a_layer() {
    let c = AskUserCapability::new();
    assert!(c.prompt().is_none());
    assert_eq!(advertised_by(&Capability::AskUser(c), &facts()), vec![TOOL]);
}

#[test]
fn the_advertised_schema_offers_multi_select_and_a_free_text_fallback() {
    let spec = Capability::AskUser(AskUserCapability::new()).layer(vec![], &facts()).remove(0);
    assert_eq!(spec.input_schema, ASK_SCHEMA);
    let schema: serde_json::Value = serde_json::from_str(&spec.input_schema).expect("JSON");
    let props = schema.get("properties").expect("schema has properties");
    assert_eq!(
        props.get("multiple").and_then(|m| m.get("type")).and_then(|t| t.as_str()),
        Some("boolean")
    );
    assert_eq!(
        schema.get("required").map(|r| r.to_string()),
        Some("[\"question\"]".to_string()),
        "a plain free-text question is still one field"
    );
    let choices_doc = props
        .get("choices")
        .and_then(|c| c.get("description"))
        .and_then(|d| d.as_str())
        .expect("choices is documented");
    assert!(
        choices_doc.contains("own words"),
        "the model must be told choices are suggestions, not a constraint: {choices_doc}"
    );
}

#[test]
fn an_ask_journals_the_question_and_parks() {
    let c = attended();
    let d = command(&c, &ask("call-1", "which database?")).expect("mine");

    let [CapabilityEvent::AskUserAsked { call, question }] = d.events.as_slice() else {
        panic!("expected one asked event, got {:?}", d.events);
    };
    assert_eq!(call, "call-1");
    assert_eq!(question, "which database?");
    let [Act::Record(shown), Act::Park { call, note }] = d.acts.as_slice() else {
        panic!("an ask that did not record and park: {:?}", d.acts);
    };
    assert_eq!(shown.tool_call_id.as_deref(), Some("call-1"));
    assert_eq!(shown.question, "which database?");
    assert_eq!(call, "call-1");
    assert_eq!(
        note, "which database?",
        "the park record has to say what is being waited for"
    );

    let c = fold(c, d);
    assert_eq!(
        c.ask_user.question("call-1").map(String::as_str),
        Some("which database?")
    );
}

#[test]
fn a_complete_answer_set_resumes_with_one_result_per_question() {
    let c = parked(&[("call-1", "which?"), ("call-2", "which model?")]);
    let d = handle(
        &c,
        &Msg::Answer(vec![answer("call-2", "opus"), answer("call-1", "main")]),
    )
    .expect("mine");

    let [Act::Resume { results }] = d.acts.as_slice() else {
        panic!("a complete answer set that did not resume: {:?}", d.acts);
    };
    assert_eq!(
        results
            .iter()
            .map(|r| (r.tool_call_id.as_str(), r.output.as_str(), r.is_error))
            .collect::<Vec<_>>(),
        vec![("call-1", "main", false), ("call-2", "opus", false)],
        "results must follow the park's order, not the answers'"
    );

    let c = fold(c, d);
    assert!(c.ask_user.calls().is_empty(), "an answered park is over");
}

#[test]
fn an_incomplete_answer_set_is_refused_and_journals_nothing() {
    let c = parked(&[("call-1", "which?"), ("call-2", "which model?")]);
    assert!(
        handle(&c, &Msg::Answer(vec![answer("call-1", "main")])).is_none(),
        "half a park cannot resume"
    );
    assert_eq!(
        c.ask_user.answer_error(&[answer("call-1", "main")]),
        Some(AnswerError::Incomplete {
            missing: vec!["call-2".to_string()],
            unexpected: vec![],
        }),
        "the person who answered is owed the diagnostic"
    );
    assert_eq!(c.ask_user.calls().len(), 2, "a refused answer changes nothing");
}

#[test]
fn an_answer_naming_a_call_that_is_not_pending_is_refused() {
    let c = parked(&[("call-1", "which?")]);
    let answers = || vec![answer("call-1", "main"), answer("call-9", "who asked?")];
    assert!(handle(&c, &Msg::Answer(answers())).is_none());
    assert_eq!(
        c.ask_user.answer_error(&answers()),
        Some(AnswerError::Incomplete {
            missing: vec![],
            unexpected: vec!["call-9".to_string()],
        })
    );
    let fresh = attended();
    assert!(handle(&fresh, &Msg::Answer(vec![answer("call-1", "main")])).is_none());
    assert_eq!(
        fresh.ask_user.answer_error(&[answer("call-1", "main")]),
        Some(AnswerError::NothingPending)
    );
}

#[test]
fn the_turn_that_parked_does_not_end_the_park() {
    let c = parked(&[("call-1", "which?")]);
    for ended in [TurnEvent::Ended, TurnEvent::Failed, TurnEvent::Cancelled] {
        assert!(handle(&c, &Msg::Turn(ended)).is_none(), "{ended:?} touched the park");
    }
    let d = handle(&c, &Msg::Turn(TurnEvent::Began)).expect("the park is over");
    assert!(matches!(d.events.as_slice(), [CapabilityEvent::AskUserAbandoned]));
    assert!(d.acts.is_empty(), "abandoning is the queue's to act on");
    let c = fold(c, d);
    assert!(c.ask_user.calls().is_empty());
    assert!(handle(&c, &Msg::Turn(TurnEvent::Began)).is_none());
}

#[test]
fn a_copied_park_keeps_its_questions() {
    let c = parked(&[("call-1", "which?"), ("call-2", "which model?")]);
    let back = c.clone();
    assert_eq!(back.ask_user.calls(), vec!["call-1".to_string(), "call-2".to_string()]);
    assert_eq!(back.ask_user.question("call-1").map(String::as_str), Some("which?"));
    assert_eq!(back.ask_user.question("call-2").map(String::as_str), Some("which model?"));

    let muted = Capabilities::new(vec![Capability::AskUser(AskUserCapability::unattended())]);
    let read = muted.clone();
    let [Capability::AskUser(back)] = read.iter().as_slice() else {
        panic!("the copy changed which capability this is");
    };
    assert_eq!(back.mute, Some(Mute::Unattended));
}

/// Where one call is answered twice, the last answer counts.
#[test]
fn the_last_of_two_answers_to_one_call_counts() {
    let c = parked(&[("call-1", "which?")]);
    let d = handle(
        &c,
        &Msg::Answer(vec![answer("call-1", "first"), answer("call-1", "second")]),
    )
    .expect("mine");
    let [Act::Resume { results }] = d.acts.as_slice() else {
        panic!("expected a resume, got {:?}", d.acts);
    };
    assert_eq!(results[0].output, "second");
}

/// A question that is not text is an empty one, and still a park.
#[test]
fn a_question_that_is_not_text_is_empty() {
    let d = command(
        &attended(),
        &CapCommand::AskUser(
            Command::Ask { input: json("{\"question\": 5}") },
            answering("t1"),
        ),
    )
    .expect("mine");
    let [CapabilityEvent::AskUserAsked { question, .. }] = d.events.as_slice() else {
        panic!("expected an ask");
    };
    assert_eq!(question, "");
}

/// Nothing else reaching the agent touches a park.
#[test]
fn other_messages_leave_a_park_alone() {
    let c = parked(&[("call-1", "which?")]);
    for msg in [
        Msg::Concluded,
        Msg::Loaded,
        Msg::TurnProposed,
        Msg::Woke { id: "t".into() },
        Msg::Tool { call: "t".into(), name: "bash".into() },
    ] {
        assert!(handle(&c, &msg).is_none(), "{msg:?} touched the park");
    }
}
