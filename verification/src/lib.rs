//! Turns an issue tracker into a control plane for long-running coding agents.

pub mod agent_runner;
pub mod config;
pub mod dispatch;
pub mod environment;
pub mod http;
pub mod json;
pub mod logging;
pub mod mock_agent;
pub mod orchestrator;
pub mod poll;
pub mod protocol;
pub mod reconcile;
pub mod setup;
pub mod table;
pub mod tame;
pub mod template;
pub mod text;
pub mod tracker;
pub mod types;
pub mod worker;
pub mod workflow;
pub mod workspace;
