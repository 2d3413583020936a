//! Managing the server from inside a conversation.

use horsie_agent::capabilities::claims::{Answering, CapCommand};
use horsie_agent::capabilities::control_plane::{ControlPlaneCapability, PREFIX};
use horsie_agent::capabilities::decision::Msg;
use horsie_agent::capabilities::state::CapabilityState;
use horsie_agent::capabilities::{Capabilities, Capability};
use horsie_agent::runners::AgentFacts;

/// What loading an agent that found nothing leaves behind.
fn facts() -> AgentFacts {
    AgentFacts { agents: None }
}

/// The names one capability adds to an empty toolbox.
fn advertised_by(cap: &Capability, facts: &AgentFacts) -> Vec<String> {
    cap.layer(vec![], facts).into_iter().map(|s| s.name).collect()
}

/// A command of another capability.
fn someone_elses() -> CapCommand {
    CapCommand::WorkflowStatus { answering: Answering { call: "t1".to_string() } }
}

#[test]
fn no_services_is_degraded_rather_than_fatal() {
    let e = ControlPlaneCapability.equipped(None).expect_err("nothing is wired");
    assert!(!e.fatal);
    assert_eq!(e.capability, "control_plane");
    assert_eq!(
        e.reason,
        "this agent asks for the control plane but no services are wired"
    );
}

#[test]
fn it_claims_nothing_through_the_mailbox() {
    let c = Capability::ControlPlane(ControlPlaneCapability);
    assert!(advertised_by(&c, &facts()).is_empty());
    let state = CapabilityState::new(Capabilities::new(vec![]));
    assert!(
        c.command(&state, &someone_elses()).is_none(),
        "a capability with no commands claimed one"
    );
    assert!(ControlPlaneCapability.handle(&Msg::Loaded).is_none());
}

/// The agent is told what it can manage, under the prefix its tools have.
#[test]
fn the_index_is_what_the_agent_is_told() {
    let said = ControlPlaneCapability.equipped(Some("agents, workflows")).expect("wired");
    assert_eq!(said.key, "control_plane");
    assert!(said.body.contains("`horsie_*` tools: agents, workflows\n\n"));
    assert_eq!(PREFIX, "horsie_");
}
