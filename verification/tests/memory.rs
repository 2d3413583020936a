//! The memory spaces an agent can reach.

use horsie_agent::capabilities::claims::{Answering, CapCommand};
use horsie_agent::capabilities::decision::Msg;
use horsie_agent::capabilities::memory::{MemoryCapability, TOOLS};
use horsie_agent::capabilities::state::CapabilityState;
use horsie_agent::capabilities::{Capabilities, Capability};
use horsie_agent::runners::AgentFacts;

/// What loading an agent that found nothing leaves behind.
fn facts() -> AgentFacts {
    AgentFacts { agents: None }
}

/// The names one capability adds to an empty toolbox.
fn advertised_by(cap: &Capability, facts: &AgentFacts) -> Vec<String> {
    cap.layer(vec![], facts).into_iter().map(|s| s.name).collect()
}

/// A command of another capability.
fn someone_elses() -> CapCommand {
    CapCommand::WorkflowStatus { answering: Answering { call: "t1".to_string() } }
}

#[test]
fn no_spaces_equips_no_layer() {
    assert_eq!(MemoryCapability::new(vec![]).reads(false), Ok(false));
    assert_eq!(MemoryCapability::default().reads(true), Ok(false));
}

#[test]
fn memory_no_service_is_degraded_rather_than_fatal() {
    let e = MemoryCapability::new(vec!["default".into()])
        .reads(false)
        .expect_err("no service is wired");
    assert_eq!(e.capability, "memory");
    assert!(!e.fatal);
    assert_eq!(
        e.reason,
        "this agent names memory spaces (default) but no memory service is configured"
    );
}

#[test]
fn memory_it_claims_no_tool_name_through_the_mailbox() {
    let c = Capability::Memory(MemoryCapability::new(vec!["default".into()]));
    let state = CapabilityState::new(Capabilities::new(vec![]));
    assert!(c.command(&state, &someone_elses()).is_none());
    assert!(
        advertised_by(&c, &facts()).is_empty(),
        "the five are advertised by the toolbox that will run them"
    );
}

#[test]
fn a_copied_capability_keeps_its_spaces() {
    let caps = Capabilities::new(vec![Capability::Memory(MemoryCapability::new(vec![
        "default".into(),
        "team".into(),
    ]))]);
    let read = caps.clone();
    let [Capability::Memory(back)] = read.iter().as_slice() else {
        panic!("the copy changed which capability this is");
    };
    assert_eq!(back.spaces, vec!["default".to_string(), "team".to_string()]);
}

/// Named spaces with a service behind them are read, and the index is what
/// makes the five tools usable.
#[test]
fn named_spaces_are_read() {
    let c = MemoryCapability::new(vec!["default".into(), "team".into()]);
    assert_eq!(c.reads(true), Ok(true));
    let index = c.prompt("# Memories\n- a".to_string());
    assert_eq!(index.key, "memory");
    assert_eq!(index.body, "# Memories\n- a");
    assert_eq!(c.failed("disk").reason, "read the memory index: disk");
    assert!(!c.failed("disk").fatal);
    assert!(c.handle(&Msg::TurnProposed).is_none());
    assert_eq!(TOOLS.len(), 5);
    assert!(TOOLS.iter().all(|t| t.starts_with("memory_")));
}
