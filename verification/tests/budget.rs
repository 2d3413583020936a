//! When an agent compacts, and to what.

use horsie_agent::capabilities::budget::{
    TokenBudgetCapability, DEFAULT_RETAIN_PERCENT, DEFAULT_TRIGGER_AT_PERCENT,
};
use horsie_agent::capabilities::state::CapabilityState;
use horsie_agent::capabilities::{Capabilities, Capability};

fn budget(trigger: u32, retain: u32) -> CapabilityState {
    CapabilityState::new(Capabilities::new(vec![Capability::TokenBudget(
        TokenBudgetCapability::new(trigger, retain),
    )]))
}

#[test]
fn a_turn_proposal_answers_with_the_configured_budget() {
    let state = budget(80, 20);
    assert_eq!(
        state.capabilities.token_budget().map(TokenBudgetCapability::target),
        Some((80, 20)),
        "the answer did not carry equip-time config"
    );
}

#[test]
fn an_agent_without_one_has_no_target_at_all() {
    let state = CapabilityState::new(Capabilities::default());
    assert!(state.capabilities.token_budget().is_none());
}

#[test]
fn the_default_matches_what_the_server_constants_used_to_say() {
    assert_eq!((DEFAULT_TRIGGER_AT_PERCENT, DEFAULT_RETAIN_PERCENT), (80, 20));
    assert_eq!(TokenBudgetCapability::default().target(), (80, 20));
}

#[test]
fn a_copied_state_keeps_its_budget() {
    let read = budget(70, 30).clone();
    assert_eq!(
        read.capabilities.token_budget().map(TokenBudgetCapability::target),
        Some((70, 30))
    );
}

/// The first budget in the set is the one that answers.
#[test]
fn the_first_budget_answers() {
    let caps = Capabilities::new(vec![
        Capability::TokenBudget(TokenBudgetCapability::new(50, 10)),
        Capability::TokenBudget(TokenBudgetCapability::new(60, 20)),
    ]);
    assert_eq!(caps.token_budget().map(TokenBudgetCapability::target), Some((50, 10)));
    assert_eq!(Capability::TokenBudget(TokenBudgetCapability::default()).name(), "token_budget");
}
