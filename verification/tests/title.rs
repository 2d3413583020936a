//! Naming the conversation.

use horsie_agent::capabilities::state::{CapabilityEvent, CapabilityState};
use horsie_agent::capabilities::title::{
    normalize_session_title, reloaded, request, titled, Renamed, Request, SessionTitleError,
    Titled, TitleCapability, TitleState, SESSION_TITLE_MAX_CHARS, TOOL,
};
use horsie_agent::capabilities::{Capabilities, Capability, SessionReply, SessionRequest};
use horsie_agent::ids::RunnerId;
use horsie_agent::runners::AgentFacts;

/// What loading an agent that found nothing leaves behind.
fn facts() -> AgentFacts {
    AgentFacts { agents: None }
}

/// The names one capability adds to an empty toolbox.
fn advertised_by(cap: &Capability, facts: &AgentFacts) -> Vec<String> {
    cap.layer(vec![], facts).into_iter().map(|s| s.name).collect()
}

fn fold(title: TitleState, event: CapabilityEvent) -> TitleState {
    let mut state = CapabilityState::new(Capabilities::new(vec![]));
    state.title = title;
    state.apply(event).title
}

/// Ask for a name, the way the layer that claims `set_session_title` would.
fn set(title: &str) -> Renamed {
    TitleCapability::new().renamed(Ok(Request { title: title.to_string() }))
}

fn asked(state: TitleState, call: &str, title: &str) -> TitleState {
    let Renamed::Ask { name } = set(title) else {
        panic!("{title:?} was not asked for at all");
    };
    fold(state, CapabilityEvent::TitleAsked { call: call.to_string(), name })
}

/// One rename in flight and nothing else.
fn asking(call: &str, title: &str) -> TitleState {
    asked(TitleState::default(), call, title)
}

fn in_flight(state: &TitleState) -> Vec<(String, String)> {
    state.pending()
}

fn flight(pairs: &[(&str, &str)]) -> Vec<(String, String)> {
    pairs.iter().map(|(a, b)| (a.to_string(), b.to_string())).collect()
}

fn reply(state: &TitleState, reply: &SessionReply) -> Titled {
    titled(state, reply).expect("mine")
}

fn done(call: &str) -> SessionReply {
    SessionReply::Done { call: call.to_string() }
}

#[test]
fn setting_a_title_asks_the_session() {
    let decided = set("the flake");
    let Renamed::Ask { name } = &decided else {
        panic!("a title that did not ask the session: {decided:?}");
    };
    assert_eq!(name, "the flake");
    let ask = request("call-1", name);
    let SessionRequest::SetTitle { call, title } = &ask else {
        panic!("a title that did not ask the session: {ask:?}");
    };
    assert_eq!(call, "call-1");
    assert_eq!(title, "the flake");
    let state = fold(
        TitleState::default(),
        CapabilityEvent::TitleAsked { call: "call-1".into(), name: name.clone() },
    );
    assert_eq!(in_flight(&state), flight(&[("call-1", "the flake")]));
}

#[test]
fn a_rename_the_session_never_answered_is_asked_again_on_load() {
    let back = asking("call-1", "the flake").clone();
    let asks = reloaded(&back);
    let [SessionRequest::SetTitle { call, title }] = asks.as_slice() else {
        panic!("expected exactly one re-ask, got {asks:?}");
    };
    assert_eq!(call, "call-1", "the answer would reach nobody");
    assert_eq!(title, "the flake");
}

#[test]
fn a_rename_the_session_answered_is_not_asked_again() {
    let state = asking("call-1", "the flake");
    let Titled::Taken { name } = reply(&state, &done("call-1")) else {
        panic!("the session took it");
    };
    let state = fold(state, CapabilityEvent::TitleSet { call: "call-1".into(), name });
    assert!(reloaded(&state).is_empty());
}

#[test]
fn the_session_taking_it_names_the_conversation_and_answers_the_model() {
    let state = asking("call-1", "the flake");
    let answer = reply(&state, &done("call-1"));
    assert_eq!(answer.told(), "Session title set to \"the flake\".");
    let Titled::Taken { name } = &answer else {
        panic!("expected a name that took, got {answer:?}");
    };
    assert_eq!(name, "the flake");
    let state = fold(
        state,
        CapabilityEvent::TitleSet { call: "call-1".into(), name: name.clone() },
    );
    assert!(in_flight(&state).is_empty(), "an answered request is over");
}

#[test]
fn a_refused_rename_is_passed_back_to_the_model_verbatim() {
    let state = asking("call-1", "the flake");
    let reason = "this session belongs to a routine and cannot be renamed";
    let answer = reply(
        &state,
        &SessionReply::Refused { call: "call-1".into(), reason: reason.into() },
    );
    assert_eq!(answer.told(), reason, "the session's reason was reworded");
    assert!(matches!(answer, Titled::Refused { .. }));
    let state = fold(state, CapabilityEvent::TitleRefused { call: "call-1".into() });
    assert!(in_flight(&state).is_empty(), "a refused request stayed in flight for ever");
}

#[test]
fn a_reply_for_someone_elses_request_is_not_mine() {
    let state = asking("call-1", "the flake");
    assert!(titled(&state, &done("call-9")).is_none());
    assert!(titled(&TitleState::default(), &done("call-1")).is_none());
}

#[test]
fn the_asked_name_is_the_normalized_one() {
    let decided = set("  Fix café login ☕  ");
    let Renamed::Ask { name } = &decided else {
        panic!("expected an ask, got {decided:?}");
    };
    let ask = request("call-1", name);
    let SessionRequest::SetTitle { title, .. } = &ask else {
        panic!("expected an ask, got {ask:?}");
    };
    assert_eq!(title, "Fix café login ☕");
    let state = fold(
        TitleState::default(),
        CapabilityEvent::TitleAsked { call: "call-1".into(), name: name.clone() },
    );
    assert_eq!(
        reply(&state, &done("call-1")).told(),
        "Session title set to \"Fix café login ☕\"."
    );
}

#[test]
fn an_invalid_title_is_refused_and_records_nothing() {
    for bad in ["   ", "one\ntwo"] {
        let Renamed::Told(text) = set(bad) else {
            panic!("{bad:?} was journaled");
        };
        assert!(text.contains("session title must"), "{text}");
    }
    let decided = TitleCapability::new().renamed(Err("missing field `title`".into()));
    let Renamed::Told(text) = &decided else {
        panic!("unreadable arguments were journaled: {decided:?}");
    };
    assert!(text.contains("cannot read"));
    assert_eq!(
        text,
        "`set_session_title` was called with arguments it cannot read: missing field `title`"
    );
}

#[test]
fn either_variant_advertises_the_tool_without_equipping_a_layer() {
    for cap in [TitleCapability::new(), TitleCapability::for_fork(RunnerId::new_v4())] {
        assert_eq!(advertised_by(&Capability::Title(cap), &facts()), vec![TOOL]);
    }
}

#[test]
fn the_advertised_schema_quotes_the_limit_it_enforces() {
    let spec = Capability::Title(TitleCapability::new()).layer(vec![], &facts()).remove(0);
    assert_eq!(spec.name, TOOL);
    let schema: serde_json::Value = serde_json::from_str(&spec.input_schema).expect("JSON");
    assert_eq!(
        schema["properties"]["title"]["maxLength"].as_u64(),
        Some(SESSION_TITLE_MAX_CHARS as u64)
    );
    assert_eq!(schema["required"].to_string(), "[\"title\"]");
}

#[test]
fn normalize_title_trims_and_accepts_unicode() {
    let title = normalize_session_title("  Fix café login ☕  ").unwrap();
    assert_eq!(title, "Fix café login ☕");
}

#[test]
fn normalize_title_rejects_empty_multiline_and_too_long() {
    assert_eq!(normalize_session_title("   "), Err(SessionTitleError::Empty));
    assert_eq!(normalize_session_title("one\ntwo"), Err(SessionTitleError::Multiline));
    assert_eq!(normalize_session_title("one\rtwo"), Err(SessionTitleError::Multiline));
    assert_eq!(
        normalize_session_title(&"é".repeat(61)),
        Err(SessionTitleError::TooLong { max: 60 })
    );
}

#[test]
fn only_a_fork_is_told_it_is_one() {
    let forked = TitleCapability::for_fork(RunnerId::new_v4()).prompt();
    assert_eq!(forked.key, "fork_role");
    assert!(forked.body.starts_with("# Forked conversation"));
    let plain = TitleCapability::new().prompt();
    assert_eq!(plain.key, "title");
    assert_eq!(
        plain.body,
        "Name this conversation with `set_session_title` once you know what it is about."
    );
}

#[test]
fn a_copied_state_keeps_the_request_in_flight() {
    let state = asking("call-1", "the flake");
    let Titled::Taken { name } = reply(&state, &done("call-1")) else {
        panic!("the session took it");
    };
    let state = fold(state, CapabilityEvent::TitleSet { call: "call-1".into(), name });
    let state = asked(state, "call-2", "the other one");
    let back = state.clone();
    assert_eq!(in_flight(&back), flight(&[("call-2", "the other one")]));

    let fork = RunnerId::new_v4();
    let forked = Capabilities::new(vec![Capability::Title(TitleCapability::for_fork(fork))]);
    let read = forked.clone();
    let [Capability::Title(back)] = read.iter().as_slice() else {
        panic!("the copy changed which capability this is");
    };
    assert_eq!(back.fork, Some(fork));
}

/// The refusals in words, and the length that is just allowed.
#[test]
fn a_title_of_sixty_characters_is_allowed() {
    assert_eq!(normalize_session_title(&"é".repeat(60)), Ok("é".repeat(60)));
    assert_eq!(SessionTitleError::Empty.text(), "session title must not be empty");
    assert_eq!(SessionTitleError::Multiline.text(), "session title must be a single line");
    assert_eq!(
        SessionTitleError::TooLong { max: 60 }.text(),
        "session title must be at most 60 characters"
    );
}

/// A line break inside an over-long title is what is named, and one at the end
/// is no part of the title.
#[test]
fn the_first_thing_wrong_is_named() {
    let long = format!("{}\nx", "a".repeat(70));
    assert_eq!(normalize_session_title(&long), Err(SessionTitleError::Multiline));
    assert_eq!(normalize_session_title("title\n"), Ok("title".to_string()));
}

/// A normalized name normalizes to itself.
#[test]
fn normalizing_twice_is_normalizing() {
    let once = normalize_session_title("\u{3000}  a  b\t ").unwrap();
    assert_eq!(once, "a  b");
    assert_eq!(normalize_session_title(&once), Ok(once.clone()));
}
