//! Branch lifecycle engine for an issue-tracker-driven git workflow:
//! layered configuration, cleanup planning and execution, branch creation.
//!
//! The library is pure with respect to the outside world: the version-control
//! and issue-tracker collaborators are driven by the surrounding binary, which
//! feeds their answers in as plain values and carries the library's decisions
//! back out.

pub mod branch;
pub mod config;
pub mod creator;
pub mod dispatch;
pub mod executor;
pub mod init;
pub mod planner;
pub mod text;
