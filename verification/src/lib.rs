//! Verified core of the Ravn self-healing agent: detection classifiers,
//! remediation templates, signed-command checks and the command state machine.

pub mod text;
pub mod event;
pub mod remediation;
pub mod command;
pub mod crypto;
pub mod keyring;
pub mod actuator;
pub mod agent;
pub mod failed_unit;
pub mod auth;
pub mod journal;
pub mod update;
pub mod config;
pub mod kube;
pub mod mcp;
pub mod eval;
pub mod inference;
pub mod pipeline;
pub mod config_drift;
