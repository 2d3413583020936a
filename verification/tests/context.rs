//! What a run is given, and which of its tools it may call.

use horsie_agent::context::{
    compaction_window, AgentOutcome, AgentToolbox, ContextError, Contexts, DefaultToolboxFactory,
    FilteredToolbox, Skill, ToolPlan, INSPECT_WORKSPACE_TOOL, SKILL_TOOL,
};
use horsie_agent::ids::AgentId;
use horsie_agent::json::{Json, Number};
use horsie_agent::mcp_toolbox::McpToolboxes;
use horsie_agent::model::{ToolCallError, ToolSpec};

/// The JSON this text spells.
fn json(text: &str) -> Json {
    convert(&serde_json::from_str(text).expect("valid JSON"))
}

fn convert(value: &serde_json::Value) -> Json {
    match value {
        serde_json::Value::Null => Json::Null,
        serde_json::Value::Bool(b) => Json::Bool(*b),
        serde_json::Value::Number(n) => Json::Number(match (n.as_u64(), n.as_i64()) {
            (Some(n), _) => Number::PosInt(n),
            (None, Some(n)) => Number::NegInt(n),
            (None, None) => Number::Fraction(n.to_string()),
        }),
        serde_json::Value::String(s) => Json::String(s.clone()),
        serde_json::Value::Array(items) => Json::Array(items.iter().map(convert).collect()),
        serde_json::Value::Object(members) => Json::Object(
            members
                .iter()
                .map(|(name, value)| (name.clone(), convert(value)))
                .collect(),
        ),
    }
}

fn spec(name: &str) -> ToolSpec {
    ToolSpec {
        name: name.into(),
        description: String::new(),
        input_schema: "{\"type\":\"object\"}".into(),
    }
}

/// The tools a runtime brings.
fn runtime() -> Vec<ToolSpec> {
    vec![spec("bash"), spec("read_file")]
}

/// The names a selection can know.
fn governed() -> Vec<String> {
    ["bash", "read_file", SKILL_TOOL, INSPECT_WORKSPACE_TOOL, "horsie_agents"]
        .iter()
        .map(|n| n.to_string())
        .collect()
}

fn toolbox(workspaces: &[&str], use_plugins: bool) -> AgentToolbox {
    DefaultToolboxFactory.for_agent(
        runtime(),
        workspaces.iter().map(|w| w.to_string()).collect(),
        use_plugins,
        McpToolboxes::new(),
    )
}

fn names(specs: Vec<ToolSpec>) -> Vec<String> {
    specs.into_iter().map(|s| s.name).collect()
}

fn workspace_skills() -> Vec<Skill> {
    vec![Skill {
        name: "git-bisect".into(),
        body: "Step 1...".into(),
        dir: Some("/ws/october/.agents/skills/git-bisect".into()),
    }]
}

fn shared_skills() -> Vec<Skill> {
    vec![Skill {
        name: "brainstorming".into(),
        body: "Do it.".into(),
        dir: Some("/opt/plugins/sp/skills/brainstorming".into()),
    }]
}

#[test]
fn the_factory_no_longer_narrows_anything() {
    let names = names(toolbox(&["october"], false).specs());
    assert!(names.contains(&"bash".to_string()));
    assert!(names.contains(&"read_file".to_string()));
}

#[test]
fn a_selection_narrows_the_whole_stack() {
    let inner = toolbox(&["october"], false).specs();
    let tb = FilteredToolbox::new(inner, vec!["bash".to_string()], governed());
    let names = names(tb.specs());
    assert!(names.contains(&"bash".to_string()));
    assert!(!names.contains(&"read_file".to_string()));
    assert!(!names.contains(&SKILL_TOOL.to_string()));
}

#[test]
fn a_tool_the_catalogue_does_not_know_is_never_filtered() {
    let tb = FilteredToolbox::new(
        vec![spec("mcp__notion__search")],
        vec!["bash".to_string()],
        governed(),
    );
    assert_eq!(names(tb.specs()), vec!["mcp__notion__search".to_string()]);
    assert!(
        tb.check_call("mcp__notion__search").is_ok(),
        "an ungoverned tool must still be callable"
    );
}

#[test]
fn an_absent_selection_still_filters_the_control_plane() {
    let all_but_granted: Vec<String> =
        governed().into_iter().filter(|n| !n.starts_with("horsie_")).collect();
    let tb = FilteredToolbox::new(vec![spec("horsie_agents")], all_but_granted, governed());
    assert!(
        tb.specs().is_empty(),
        "a session that never asked for the control plane must not get it"
    );
}

#[test]
fn skill_and_inspect_always_present() {
    let names = names(toolbox(&["october"], false).specs());
    assert!(names.contains(&SKILL_TOOL.to_string()));
    assert!(names.contains(&INSPECT_WORKSPACE_TOOL.to_string()));
}

#[test]
fn skill_fetches_live_for_single_workspace_default() {
    let tb = toolbox(&["october"], false);
    assert_eq!(
        tb.plan(SKILL_TOOL, &json("{\"name\": \"git-bisect\"}")),
        Ok(ToolPlan::WorkspaceSkill {
            workspace: "october".into(),
            skill: "git-bisect".into()
        })
    );
    let found = workspace_skills();
    assert_eq!(
        AgentToolbox::workspace_skill("october", Some(&found), "git-bisect"),
        Ok(Json::String(
            "Step 1...\n\n[resources] This skill's files are in \
             /ws/october/.agents/skills/git-bisect/. Read one with \
             read_file(path=\"/ws/october/.agents/skills/git-bisect/<file>\")."
                .into()
        ))
    );
    let err = AgentToolbox::workspace_skill("october", Some(&found), "nope").unwrap_err();
    assert!(matches!(err, ToolCallError::InvalidInput(_)));
    assert_eq!(
        tb.plan(INSPECT_WORKSPACE_TOOL, &json("{}")),
        Ok(ToolPlan::Inspect { only: None })
    );
}

#[test]
fn skill_requires_workspace_when_multiple() {
    let tb = toolbox(&["alpha", "beta"], false);
    let err = tb.plan(SKILL_TOOL, &json("{\"name\": \"git-bisect\"}")).unwrap_err();
    assert!(matches!(err, ToolCallError::InvalidInput(_)));
    assert_eq!(err, ToolCallError::InvalidInput("specify a workspace: alpha, beta".into()));
    let err = tb
        .plan(SKILL_TOOL, &json("{\"name\": \"git-bisect\", \"workspace\": \"zzz\"}"))
        .unwrap_err();
    assert!(matches!(err, ToolCallError::InvalidInput(_)));
    assert_eq!(
        err,
        ToolCallError::InvalidInput("unknown workspace 'zzz'; available: alpha, beta".into())
    );
}

#[test]
fn shared_skill_loads_with_resource_hint_when_opted_in() {
    let tb = toolbox(&["october"], true);
    assert_eq!(
        tb.plan(
            SKILL_TOOL,
            &json("{\"name\": \"brainstorming\", \"workspace\": \"horsie_shared\"}")
        ),
        Ok(ToolPlan::SharedSkill { skill: "brainstorming".into() })
    );
    let Ok(Json::String(text)) = AgentToolbox::shared_skill(&shared_skills(), "brainstorming")
    else {
        panic!("the skill is there");
    };
    assert!(text.contains("Do it."));
    assert!(
        text.contains("read_file(path=\"/opt/plugins/sp/skills/brainstorming/<file>\")"),
        "{text}"
    );
    assert!(!text.contains("workspace="), "{text}");
    assert_eq!(
        AgentToolbox::shared_skill(&shared_skills(), "x"),
        Err(ToolCallError::InvalidInput(
            "unknown shared skill 'x'; available: brainstorming".into()
        ))
    );
}

#[test]
fn shared_skill_rejected_when_opted_out() {
    let tb = toolbox(&["october"], false);
    let err = tb
        .plan(
            SKILL_TOOL,
            &json("{\"name\": \"brainstorming\", \"workspace\": \"horsie_shared\"}"),
        )
        .unwrap_err();
    assert!(matches!(err, ToolCallError::InvalidInput(_)));
}

#[test]
fn inspect_includes_shared_section_only_when_opted_in() {
    let shared = "## horsie_shared\n- brainstorming: explore first";
    let on = toolbox(&["october"], true);
    let text = on.inspection("## october — /ws/october".into(), shared, false);
    assert!(text.contains("## horsie_shared"));
    assert!(text.contains("- brainstorming: explore first"));

    assert!(on.shows_shared(false) && !on.shows_shared(true));

    let off = toolbox(&["october"], false);
    assert!(!off.shows_shared(false));
    let text = off.inspection("## october — /ws/october".into(), shared, false);
    assert!(!text.contains("horsie_shared"));
    assert!(matches!(
        off.plan(INSPECT_WORKSPACE_TOOL, &json("{\"workspace\": \"horsie_shared\"}")),
        Err(ToolCallError::InvalidInput(_))
    ));
}

#[test]
fn a_window_reaches_a_run_only_when_wanted_and_declared() {
    assert_eq!(compaction_window(None, Some(200_000)), Some(200_000), "on by default");
    assert_eq!(compaction_window(Some(true), Some(200_000)), Some(200_000));
    assert_eq!(compaction_window(Some(false), Some(200_000)), None, "turned off");
    assert_eq!(compaction_window(None, None), None, "the card declares none");
    assert_eq!(
        compaction_window(Some(true), None),
        None,
        "asked for, but there is nothing to be a share of — no guessed default"
    );
}

/// A call that is not one of the two standing tools goes to the tools below.
#[test]
fn any_other_call_goes_below() {
    assert_eq!(toolbox(&[], false).plan("bash", &json("{}")), Ok(ToolPlan::Base));
}

/// A call a selection left out is refused in words, and selections stack.
#[test]
fn a_call_left_out_is_refused() {
    let tb = FilteredToolbox::new(runtime(), vec!["bash".into()], governed());
    assert_eq!(
        tb.check_call("read_file"),
        Err(ToolCallError::InvalidInput(
            "tool 'read_file' is not permitted for this agent".into()
        ))
    );
    let narrower = FilteredToolbox::new(tb.specs(), vec!["read_file".into()], governed());
    assert!(narrower.specs().is_empty());
}

/// A workspace that is not there says so.
#[test]
fn a_workspace_that_is_gone_says_so() {
    assert_eq!(
        AgentToolbox::workspace_skill("october", None, "git-bisect"),
        Err(ToolCallError::InvalidInput("workspace 'october' is not available".into()))
    );
}

/// Every report names its agent.
#[test]
fn every_report_names_its_agent() {
    let agent = AgentId(3);
    assert_eq!(AgentOutcome::Started { agent }.agent(), agent);
    assert_eq!(AgentOutcome::Parked { agent }.agent(), agent);
    assert_eq!(
        AgentOutcome::Failed { agent, error: "e".into(), recoverable: true, terminal: false }.agent(),
        agent
    );
}

/// Only a terminal failure ends the owner.
#[test]
fn a_context_failure_is_retryable_unless_it_says_so() {
    assert!(!ContextError::retryable("x".into()).terminal);
    assert!(ContextError::terminal("x".into()).terminal);
    assert_eq!(ContextError::terminal("x".into()).text(), "x");
    let fixed = Contexts::fixed(runtime());
    assert_eq!(fixed.context_window, None);
    assert_eq!(fixed.toolbox.len(), 2);
}
