//! Text, JSON, ids and ordered collections.

use horsie_agent::ids::{AgentId, RunnerId, RunnerSet};
use horsie_agent::json::{compact, is_json_text, lines_or, pretty, quoted, Json, Number};
use horsie_agent::sorted::TextMap;
use horsie_agent::task_list::{TaskListAction, TaskListState};
use horsie_agent::text::{
    contains, join, number, same, sorts_before, strip_prefix, text_before, trim, white_space,
};
use horsie_agent::timers::{CancelSelector, TimerId, TimerRequest};

/// The JSON this text spells.
fn json(text: &str) -> Json {
    convert(&serde_json::from_str(text).expect("valid JSON"))
}

fn convert(value: &serde_json::Value) -> Json {
    match value {
        serde_json::Value::Null => Json::Null,
        serde_json::Value::Bool(b) => Json::Bool(*b),
        serde_json::Value::Number(n) => Json::Number(match (n.as_u64(), n.as_i64()) {
            (Some(n), _) => Number::PosInt(n),
            (None, Some(n)) => Number::NegInt(n),
            (None, None) => Number::Fraction(n.to_string()),
        }),
        serde_json::Value::String(s) => Json::String(s.clone()),
        serde_json::Value::Array(items) => Json::Array(items.iter().map(convert).collect()),
        serde_json::Value::Object(members) => Json::Object(
            members
                .iter()
                .map(|(name, value)| (name.clone(), convert(value)))
                .collect(),
        ),
    }
}

#[test]
fn text_is_trimmed_of_unicode_white_space() {
    assert_eq!(trim("\u{3000} a b \u{85}\n"), "a b");
    assert_eq!(trim(" \t "), "");
    assert!(white_space('\u{2009}') && !white_space('\u{200b}'));
}

#[test]
fn text_is_taken_apart() {
    assert_eq!(strip_prefix("mcp__a", "mcp__"), Some("a"));
    assert_eq!(strip_prefix("bash", "mcp__"), None);
    assert_eq!(text_before("a__b__c", "__"), Some("a"));
    assert_eq!(text_before("abc", "__"), None);
    assert_eq!(join(&["a".into(), "b".into()], ", "), "a, b");
    assert!(contains(&["a".into()], "a") && !contains(&[], "a"));
    assert!(same("é", "é") && !same("e", "é"));
}

#[test]
fn numbers_are_written_in_decimal() {
    assert_eq!(number(0), "0");
    assert_eq!(number(u64::MAX), "18446744073709551615");
}

#[test]
fn texts_are_ordered_by_their_characters() {
    assert!(sorts_before("a", "ab"));
    assert!(sorts_before("Z", "a"));
    assert!(!sorts_before("a", "a"));
}

#[test]
fn json_is_written_compactly_and_laid_out() {
    let value = json("{\"b\": [1, -2, \"x\\n\"], \"a\": null}");
    assert_eq!(compact(&value), "{\"a\":null,\"b\":[1,-2,\"x\\n\"]}");
    assert_eq!(
        pretty(&value),
        "{\n  \"a\": null,\n  \"b\": [\n    1,\n    -2,\n    \"x\\n\"\n  ]\n}"
    );
    assert_eq!(quoted("say \"hi\"\t"), "\"say \\\"hi\\\"\\t\"");
}

#[test]
fn json_text_is_told_from_other_text() {
    assert!(is_json_text("{\"a\": 1}"));
    assert!(!is_json_text("not json"));
    assert!(!is_json_text(""));
}

#[test]
fn json_is_read_by_name() {
    let value = json("{\"s\": \"x\", \"n\": 3, \"b\": true, \"l\": [\"a\", 1, \"b\"]}");
    assert_eq!(value.str_at("s"), Some("x"));
    assert_eq!(value.str_at("n"), None);
    assert_eq!(value.str_or_empty("missing"), "");
    assert_eq!(value.u64_at("n"), Some(3));
    assert_eq!(value.bool_at("b"), Some(true));
    assert_eq!(value.strings_at("l"), vec!["a", "b"]);
    assert_eq!(json("-1").as_u64(), None);
    assert_eq!(Json::Number(Number::PosInt(7)).as_u64(), Some(7));
}

#[test]
fn an_id_is_written_as_a_uuid() {
    assert_eq!(
        RunnerId(0x0123_4567_89ab_cdef_0123_4567_89ab_cdef).text(),
        "01234567-89ab-cdef-0123-456789abcdef"
    );
    assert_eq!(AgentId(1).text(), "00000000-0000-0000-0000-000000000001");
}

#[test]
fn a_fresh_id_is_a_version_four_uuid() {
    let text = RunnerId::new_v4().text();
    assert_eq!(text.len(), 36);
    assert_eq!(text.as_bytes()[14], b'4');
    assert!(matches!(text.as_bytes()[19], b'8' | b'9' | b'a' | b'b'));
    assert_ne!(RunnerId::new_v4(), RunnerId::new_v4());
    assert_ne!(AgentId::new_v4().0, AgentId::new_v4().0);
}

#[test]
fn runners_are_kept_in_order_and_once() {
    let mut set = RunnerSet::new();
    for id in [5u128, 1, 5, 3] {
        set.insert(RunnerId(id));
    }
    assert_eq!(set.len(), 3);
    assert_eq!((set.at(0), set.at(1), set.at(2)), (RunnerId(1), RunnerId(3), RunnerId(5)));
    set.remove(RunnerId(3));
    set.remove(RunnerId(4));
    assert!(set.contains(RunnerId(5)) && !set.contains(RunnerId(3)));
}

#[test]
fn a_map_is_kept_in_the_order_of_its_names() {
    let mut map: TextMap<u64> = TextMap::new();
    map.insert("b".into(), 1);
    map.insert("a".into(), 2);
    map.insert("b".into(), 3);
    assert_eq!(map.len(), 2);
    assert_eq!(map.at(0), ("a", &2));
    assert_eq!(map.get("b"), Some(&3));
    assert_eq!(map.remove("a"), Some(2));
    assert_eq!(map.remove("a"), None);
}

#[test]
fn a_task_list_is_changed_by_actions() {
    let mut list = TaskListState::new();
    let create = TaskListAction::from_input(&json("{\"action\": \"create\", \"tasks\": [\"a\", \"b\"]}"))
        .expect("a create");
    list.apply(create).expect("applied");
    assert_eq!(list.tasks().len(), 2);
    let update = TaskListAction::from_input(
        &json("{\"action\": \"update_status\", \"ids\": [2], \"status\": \"completed\"}"),
    )
    .expect("an update");
    list.apply(update).expect("applied");
    assert!(list.render().contains("Tasks (1/2 done)"));
    let unknown = TaskListAction::from_input(
        &json("{\"action\": \"update_status\", \"ids\": [7], \"status\": \"completed\"}"),
    )
    .expect("an update");
    assert!(list.apply(unknown).expect_err("no such task").contains("unknown task id"));
    assert_eq!(list.tasks().len(), 2, "a refused change changes nothing");
}

#[test]
fn a_timer_request_is_read_from_its_arguments() {
    let request = TimerRequest::from_input(
        &json("{\"kind\": \"one_shot\", \"after_secs\": 5, \"message\": \"m\"}"),
    )
    .expect("a request");
    assert_eq!(request.label, "");
    assert_eq!(request.after_secs, 5);
    assert_eq!(
        CancelSelector::from_input(&json("{\"id\": \"t\"}")),
        Ok(CancelSelector::One(TimerId("t".into())))
    );
    assert_eq!(
        CancelSelector::from_input(&json("{\"all\": true, \"id\": \"t\"}")),
        Ok(CancelSelector::All)
    );
}

#[test]
fn a_value_that_cannot_be_laid_out_stays_on_one_line() {
    assert_eq!(lines_or(Some("[\n  1\n]".into()), "[1]".into()), "[\n  1\n]");
    assert_eq!(lines_or(None, "[1]".into()), "[1]");
    assert_eq!(pretty(&json("[1]")), "[\n  1\n]");
}

/// However deep a value goes, and whatever float it holds, it is laid out as it
/// stands.
#[test]
fn deep_values_and_fractions_are_laid_out() {
    let mut deep = Json::Null;
    for _ in 0..200 {
        deep = Json::Array(vec![deep]);
    }
    assert_eq!(pretty(&deep).lines().count(), 401);
    for text in ["0.1", "1.0", "-0.0", "122.416294033786585", "2.2250738585072014e-308"] {
        let written = text.parse::<f64>().map(|f| format!("{f:?}")).expect("a float");
        let value = Json::Array(vec![Json::Number(Number::Fraction(text.into()))]);
        assert_eq!(pretty(&value), format!("[\n  {written}\n]"));
    }
    assert_eq!(
        pretty(&json("{\"b\": [], \"a\": {\"n\": -3, \"s\": \"x\", \"t\": true}}")),
        "{\n  \"a\": {\n    \"n\": -3,\n    \"s\": \"x\",\n    \"t\": true\n  },\n  \"b\": []\n}"
    );
}
