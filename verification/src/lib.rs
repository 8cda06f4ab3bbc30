//! WAN preference and repair logic for an EdgeRouter.
//!
//! The library holds the configuration model, the classification of the
//! interface in use, the decisions taken by the repair, remote-command and
//! log-upload tasks, and the text parsing of command output they rely on.

pub mod config;
pub mod text;
pub mod auto_reset;
pub mod remote_commands;
pub mod reset_logs;
pub mod timestamp;
