//! The branch inventory's view of one branch, as the version-control
//! collaborator reports it, and the scope a cleanup runs over.

use vstd::prelude::*;

verus! {

/// One known branch. Produced transiently by the branch inventory; version
/// control owns the source of truth.
pub struct Branch {
    pub name: String,
    pub is_local: bool,
    pub is_remote: bool,
    /// Remote branch this local branch tracks, if any.
    pub upstream: Option<String>,
    /// Whether the branch is an ancestor of the repository's primary branch.
    pub merged: bool,
    pub last_commit_author: Option<String>,
}

/// Failure of the branch inventory as a whole. It is fatal: unlike one
/// branch's deletion failure, it aborts the subcommand, so the command
/// layer maps the version-control collaborator's refusal to it before any
/// planning starts.
#[derive(Clone, Copy, Debug, PartialEq, Eq, Structural)]
pub enum InventoryError {
    /// The working directory is not inside a repository.
    NotARepository,
}

/// Which branches a cleanup considers: only local ones, or remote-tracking
/// ones as well.
#[derive(Clone, Copy, Debug, PartialEq, Eq, Structural)]
pub enum CleanScope {
    Local,
    All,
}

/// Whether the scope takes the branch in.
pub open spec fn in_scope(b: Branch, scope: CleanScope) -> bool {
    match scope {
        CleanScope::Local => b.is_local,
        CleanScope::All => true,
    }
}

} // verus!
