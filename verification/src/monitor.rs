//! Repository monitor: configuration, persistent per-branch sync state, the git and
//! sync command lines, and the decisions of one polling round.

pub mod config;
pub mod executor;
pub mod git_checker;
pub mod poller;
pub mod state;
