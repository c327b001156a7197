//! Progress of an agent's tasks, as it is reported by the agent and shown in Herdr's sidebar.
//!
//! The library decides and computes; files, processes, the clock and the database are left to the
//! program around it, which hands in what they say as plain values.

pub mod command;
pub mod command_laws;
pub mod display;
pub mod hook_config;
pub mod hook_effects;
pub mod hook_laws;
pub mod hooks;
pub mod hooks_laws;
pub mod install;
pub mod json;
pub mod jsonc;
pub mod number;
pub mod paths;
pub mod process;
pub mod publisher;
pub mod publisher_laws;
pub mod runtime;
pub mod runtime_laws;
pub mod setup;
pub mod setup_laws;
pub mod shell;
pub mod sidebar;
pub mod sidebar_effects;
pub mod sidebar_laws;
pub mod state;
pub mod state_laws;
pub mod text;
pub mod toml;
pub mod tree;
