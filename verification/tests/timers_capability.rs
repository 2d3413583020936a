//! An agent asking to be woken.

use horsie_agent::capabilities::state::{CapabilityEvent, CapabilityState};
use horsie_agent::capabilities::timers::{
    arm, cancel, concluded, holds, list, reloaded, woke, Armed, Cancelled, Fired,
    TimersCapability, Wake, CANCEL_TOOL, LIST_TOOL, SET_TOOL,
};
use horsie_agent::capabilities::{Capabilities, Capability};
use horsie_agent::inbox::Incoming;
use horsie_agent::json::{Json, Number};
use horsie_agent::runners::AgentFacts;
use horsie_agent::timers::{TimerId, TimerKind, TimerRecord, TimerState};

/// The JSON this text spells.
fn json(text: &str) -> Json {
    convert(&serde_json::from_str(text).expect("valid JSON"))
}

fn convert(value: &serde_json::Value) -> Json {
    match value {
        serde_json::Value::Null => Json::Null,
        serde_json::Value::Bool(b) => Json::Bool(*b),
        serde_json::Value::Number(n) => Json::Number(match (n.as_u64(), n.as_i64()) {
            (Some(n), _) => Number::PosInt(n),
            (None, Some(n)) => Number::NegInt(n),
            (None, None) => Number::Fraction(n.to_string()),
        }),
        serde_json::Value::String(s) => Json::String(s.clone()),
        serde_json::Value::Array(items) => Json::Array(items.iter().map(convert).collect()),
        serde_json::Value::Object(members) => Json::Object(
            members
                .iter()
                .map(|(name, value)| (name.clone(), convert(value)))
                .collect(),
        ),
    }
}

/// What loading an agent that found nothing leaves behind.
fn facts() -> AgentFacts {
    AgentFacts { agents: None }
}

/// The names one capability adds to an empty toolbox.
fn advertised_by(cap: &Capability, facts: &AgentFacts) -> Vec<String> {
    cap.layer(vec![], facts).into_iter().map(|s| s.name).collect()
}

/// A moment to decide at.
const NOW: u64 = 1_700_000_000_000;

fn agent(timers: TimerState) -> CapabilityState {
    let mut state = CapabilityState::new(Capabilities::new(vec![]));
    state.timers = timers;
    state
}

fn fold(timers: TimerState, event: CapabilityEvent) -> TimerState {
    agent(timers).apply(event).timers
}

fn armed_one(input: Json) -> TimerState {
    let Armed::Armed { record, .. } = arm(&input, TimerId("t-1".into()), NOW) else {
        panic!("a well-formed set_timer arms a timer");
    };
    fold(TimerState::new(), CapabilityEvent::TimerArmed { record })
}

fn told_json(told: &str) -> serde_json::Value {
    serde_json::from_str(told).expect("a timer answer is JSON")
}

fn fired_event(fired: &Fired) -> CapabilityEvent {
    CapabilityEvent::TimerFired {
        id: TimerId(fired.id.0.clone()),
        next_fire_at_unix_ms: fired.next_fire_at_unix_ms,
    }
}

fn one_shot(after_secs: u64) -> Json {
    json(&format!(
        "{{\"kind\": \"one_shot\", \"after_secs\": {after_secs}, \"label\": \"check back\", \"message\": \"see whether CI went green\"}}"
    ))
}

fn recurring(after_secs: u64) -> Json {
    json(&format!(
        "{{\"kind\": \"recurring\", \"after_secs\": {after_secs}, \"label\": \"nightly\", \"message\": \"re-run the sweep\"}}"
    ))
}

#[test]
fn it_advertises_the_three_timer_tools() {
    assert_eq!(
        advertised_by(&Capability::Timers(TimersCapability), &facts()),
        vec![SET_TOOL, LIST_TOOL, CANCEL_TOOL]
    );
}

#[test]
fn arming_journals_the_record_and_asks_to_be_woken() {
    let Armed::Armed { record, wake, told } = arm(&one_shot(3600), TimerId("t-1".into()), NOW)
    else {
        panic!("a well-formed set_timer arms a timer");
    };
    assert!(
        record.fire_at_unix_ms > NOW,
        "the fire time is stamped in the decision, not left for the fold"
    );
    assert_eq!(record.fire_at_unix_ms, NOW + 3_600_000);
    assert_eq!(record.interval_secs, 3600);
    assert_eq!(told_json(&told)["timer_id"], record.id.0.as_str());
    assert_eq!(wake, Wake { id: record.id.0.clone(), after_secs: 3600 });
}

#[test]
fn a_malformed_set_timer_is_refused_and_journals_nothing() {
    for (input, why) in [
        (
            "{\"kind\": \"sometimes\", \"after_secs\": 10, \"message\": \"x\"}",
            "set_timer.kind must be 'one_shot' or 'recurring'",
        ),
        (
            "{\"kind\": \"one_shot\", \"after_secs\": 0, \"message\": \"x\"}",
            "set_timer.after_secs must be an integer >= 1",
        ),
        (
            "{\"kind\": \"one_shot\", \"after_secs\": 10}",
            "set_timer.message must be a non-empty string",
        ),
    ] {
        match arm(&json(input), TimerId("t-1".into()), NOW) {
            Armed::Refused(reason) => assert_eq!(reason, why),
            Armed::Armed { record, .. } => {
                panic!("{input} was not refused, and armed {record:?}")
            }
        }
    }
}

#[test]
fn a_wake_queues_an_item_whose_id_is_derived_from_the_fire_count() {
    let timers = armed_one(recurring(60));
    let id = timers.records()[0].id.0.clone();

    let first = woke(&timers, &id, NOW).expect("its own wake");
    let Incoming::Timer { id: item, message } = &first.item else {
        panic!("a timer's wake is queued as a timer");
    };
    assert_eq!(*item, format!("{id}:1"));
    assert!(message.contains("re-run the sweep"));
    let timers = fold(timers, fired_event(&first));

    let second = woke(&timers, &id, NOW).expect("its own wake");
    let Incoming::Timer { id: item, .. } = &second.item else {
        panic!("a timer's wake is queued as a timer");
    };
    assert_eq!(*item, format!("{id}:2"));
}

#[test]
fn a_recurring_timer_re_arms_and_a_one_shot_is_removed() {
    let timers = armed_one(recurring(60));
    let id = timers.records()[0].id.0.clone();
    let fired = woke(&timers, &id, NOW).expect("its own wake");
    assert_eq!(fired.wake, Some(Wake { id: id.clone(), after_secs: 60 }));
    assert_eq!(fired.next_fire_at_unix_ms, Some(NOW + 60_000));
    let timers = fold(timers, fired_event(&fired));
    assert_eq!(timers.records().len(), 1, "a recurring timer stays armed");
    assert_eq!(timers.records()[0].fire_count, 1);

    let timers = armed_one(one_shot(60));
    let id = timers.records()[0].id.0.clone();
    let fired = woke(&timers, &id, NOW).expect("its own wake");
    assert_eq!(fired.wake, None, "a one-shot asks for nothing more");
    let timers = fold(timers, fired_event(&fired));
    assert!(timers.records().is_empty());
}

#[test]
fn a_wake_for_a_cancelled_timer_is_not_claimed() {
    let timers = armed_one(one_shot(60));
    let id = timers.records()[0].id.0.clone();
    let Cancelled::Cancelled { ids, told } =
        cancel(&timers, &json(&format!("{{\"id\": \"{id}\"}}")))
    else {
        panic!("naming a timer is a well-formed cancel");
    };
    assert_eq!(told_json(&told)["cancelled"].to_string(), format!("[\"{id}\"]"));
    let timers = fold(timers, CapabilityEvent::TimersCancelled { ids });
    assert!(timers.records().is_empty());
    assert!(
        woke(&timers, &id, NOW).is_none(),
        "a stale sleep was claimed, and would have fired a cancelled timer"
    );
    assert!(
        woke(&timers, "someone-else", NOW).is_none(),
        "a wake for an id this agent never armed was claimed"
    );
}

#[test]
fn cancel_all_removes_every_timer_and_cancelling_nothing_journals_nothing() {
    let timers = armed_one(one_shot(60));
    let Armed::Armed { record, .. } = arm(&recurring(60), TimerId("t-2".into()), NOW) else {
        panic!("a well-formed set_timer arms a timer");
    };
    let timers = fold(timers, CapabilityEvent::TimerArmed { record });
    assert_eq!(timers.records().len(), 2);

    let Cancelled::Cancelled { ids, .. } = cancel(&timers, &json("{\"all\": true}")) else {
        panic!("'all': true is a well-formed cancel");
    };
    assert_eq!(ids.len(), 2);
    let timers = fold(timers, CapabilityEvent::TimersCancelled { ids });
    assert!(timers.records().is_empty());

    let Cancelled::Cancelled { ids, told } = cancel(&timers, &json("{\"all\": true}")) else {
        panic!("'all': true is a well-formed cancel");
    };
    assert!(ids.is_empty(), "cancelling nothing is not a fact");
    assert_eq!(told_json(&told)["cancelled"].to_string(), "[]");
}

#[test]
fn listing_reports_what_is_armed_and_journals_nothing() {
    let timers = armed_one(recurring(3600));
    let views = told_json(&list(&timers, NOW));
    assert_eq!(views[0]["label"], "nightly");
    assert_eq!(views[0]["kind"], "recurring");
    assert!(views[0]["fires_in_secs"].as_u64().unwrap() <= 3600);
}

#[test]
fn a_load_re_arms_every_timer_with_its_remaining_delay() {
    let timers = fold(
        TimerState::new(),
        CapabilityEvent::TimerArmed {
            record: TimerRecord {
                id: TimerId("t-1".into()),
                label: "nightly".into(),
                message: "re-run the sweep".into(),
                kind: TimerKind::Recurring,
                interval_secs: 86_400,
                fire_at_unix_ms: NOW + 60_000,
                fire_count: 3,
            },
        },
    );
    let wakes = reloaded(&timers, NOW);
    let [wake] = wakes.as_slice() else {
        panic!("expected one wake, got {wakes:?}");
    };
    assert_eq!(wake.id, "t-1");
    assert!(
        (55..=60).contains(&wake.after_secs),
        "re-armed for {}s, not the ~60s remaining",
        wake.after_secs
    );
}

#[test]
fn a_load_with_nothing_armed_asks_for_nothing() {
    assert!(reloaded(&TimerState::new(), NOW).is_empty());
}

#[test]
fn a_turn_ending_with_a_timer_armed_is_held() {
    let holding = armed_one(one_shot(3600));
    assert_eq!(
        holds(&holding),
        Some("1 timer(s) still armed".to_string()),
        "a step holding a timer would be nudged into submitting a result it does not have"
    );
    assert!(
        holds(&TimerState::new()).is_none(),
        "an agent with nothing armed holds nothing"
    );
}

#[test]
fn concluding_cancels_every_armed_timer() {
    let timers = armed_one(one_shot(3600));
    let ids = concluded(&timers).expect("a timer to drop");
    let timers = fold(timers, CapabilityEvent::TimersCancelled { ids });
    assert!(timers.records().is_empty());
    assert!(
        concluded(&timers).is_none(),
        "an agent with nothing armed has nothing to drop"
    );
}

#[test]
fn a_copied_agent_keeps_its_armed_timers() {
    let back = agent(armed_one(recurring(60))).clone();
    assert_eq!(back.timers.records().len(), 1);
    assert_eq!(
        back.timers.records()[0].label,
        "nightly",
        "a copy that lost the armed timers has nothing to wake it"
    );
}

#[test]
fn nothing_armed_carries_nothing() {
    assert_eq!(TimerState::new().carried_state(), None);
}

/// A timer that is overdue is asked for at once.
#[test]
fn an_overdue_timer_is_asked_for_at_once() {
    let timers = armed_one(one_shot(60));
    let wakes = reloaded(&timers, NOW + 120_000);
    assert_eq!(wakes, vec![Wake { id: "t-1".into(), after_secs: 0 }]);
}

/// A cancel that names nothing is refused.
#[test]
fn a_cancel_that_names_nothing_is_refused() {
    let refused = cancel(&TimerState::new(), &json("{\"all\": false}"));
    assert_eq!(
        refused,
        Cancelled::Refused("cancel_timer requires 'id' or 'all': true".into())
    );
}
