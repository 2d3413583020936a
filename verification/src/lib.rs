//! The decisions of an agent that runs in turns.
//!
//! [`components`] is the agent itself: its journal, its queue, its turns and
//! what it keeps. [`capabilities`] is what an agent is equipped with, and what
//! each capability decides when a call, a reply or a child's report concerns
//! it. [`context`] and [`mcp_toolbox`] say which tools an agent has and who
//! runs them; [`carried_state`] says what it must not forget.
//!
//! Contracts speak of what values stand for: every type has a `deep_view`, and
//! states are moved only by folding events.

pub mod capabilities;
pub mod carried_state;
pub mod commands;
pub mod component;
pub mod components;
pub mod context;
pub mod events;
pub mod ids;
pub mod inbox;
pub mod json;
pub mod lists;
pub mod mcp_toolbox;
pub mod model;
pub mod params;
pub mod runners;
pub mod sorted;
pub mod state;
pub mod task_list;
pub mod text;
pub mod timers;
