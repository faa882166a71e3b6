pub mod branch;
pub mod cli;
pub mod config;
pub mod fzf;
pub mod git;
pub mod path;
pub mod repo;
pub mod repository;
pub mod text;
pub mod worktree;

use vstd::prelude::*;

verus! {

/// A failure of one of the lifecycle operations. Each variant names the
/// condition that produced it; subprocess failures carry the subcommand
/// that failed so callers can report it.
#[derive(Clone, Debug)]
pub enum GError {
    InvalidUrl,
    NotARepository,
    NoRemote,
    AlreadyExists,
    WorktreeNotFound,
    BranchNotFound,
    BareRepositoryProtected,
    MissingSelector,
    NoSelection,
    NotAVersionControlDirectory,
    RepositoryNotFound,
    ToolFailed { subcommand: Subcommand },
}

/// The external version-control subcommands the engines drive; used to tag
/// `GError::ToolFailed` with the step that went wrong.
#[derive(Clone, Copy, Debug, PartialEq, Eq, Structural)]
pub enum Subcommand {
    BranchList,
    BranchCreate,
    BranchRename,
    BranchDelete,
    Switch,
    WorktreeList,
    WorktreeAdd,
    WorktreeMove,
    WorktreeRemove,
    WorktreePrune,
    RevParse,
    RemoteGetUrl,
    Clone,
    Init,
}

} // verus!
