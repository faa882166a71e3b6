//! The command surface as plain data: which operation one invocation
//! asks for, with its selectors and flags. Argument parsing itself is the
//! caller's business.
use vstd::prelude::*;

verus! {

/// One invocation.
pub struct Cli {
    pub command: Commands,
}

/// The top-level commands.
pub enum Commands {
    /// Repository collection management.
    SonicRepository { cmd: RepositoryCommands },
    /// Worktree lifecycle management.
    SonicWorktree { cmd: WorktreeCommands },
    /// Branch switching.
    SonicSwitch { branch: Option<String>, interactive: bool, args: Vec<String> },
    /// Branch lifecycle management.
    SonicBranch { cmd: BranchCommands },
    /// Anything else: handed to the external tool as it is.
    External(Vec<String>),
}

/// The repository collection subcommands.
pub enum RepositoryCommands {
    Clone { url: String },
    Ls,
    Switch { repository: Option<String>, interactive: bool },
    Delete { repository: Option<String>, interactive: bool },
    New { repository: String },
}

/// The worktree subcommands.
pub enum WorktreeCommands {
    New { branch: String, base: Option<String> },
    Ls,
    Mv { old: Option<String>, new: String },
    Switch { branch: Option<String>, interactive: bool },
    Delete { branch: Option<String>, force: bool, all: bool, interactive: bool },
}

/// The branch subcommands.
pub enum BranchCommands {
    Ls { options: Vec<String> },
    New { branch: String },
    Mv { old: Option<String>, new: String },
    Delete { branch: Option<String>, force: bool, all: bool, interactive: bool },
}

} // verus!
