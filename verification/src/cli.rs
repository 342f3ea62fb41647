//! The command line: which command runs, with which options.

use vstd::prelude::*;

verus! {

/// The seconds between polls of `gw await` unless `--interval` says otherwise.
pub const DEFAULT_AWAIT_INTERVAL: u64 = 30;

/// A parsed command line.
#[derive(Debug, Clone, PartialEq, Eq)]
pub struct Cli {
    pub command: Commands,
    /// Show the git commands that run.
    pub verbose: bool,
}

/// The commands.
#[derive(Debug, Clone, PartialEq, Eq)]
pub enum Commands {
    /// Switch to the home branch and sync it.
    Home,
    /// Create a branch: from the home branch, or stacked on the current one.
    New { branch: Option<String>, stack: bool },
    /// Delete a merged branch and return home.
    Cleanup { branch: Option<String> },
    /// Show the repository's state and the next command.
    Status,
    /// Record a WIP commit and return home.
    Pause { message: Option<String> },
    /// Discard the branch's changes and return home.
    Abandon,
    /// Undo the last commit, keeping its changes staged.
    Undo,
    /// Bring the branch up to date with its base (or abort an unfinished sync).
    Sync { abort: bool },
    /// Open the branch's pull request in the browser.
    Open,
    /// Watch a pull request until it merges or closes, then clean up.
    Await {
        pr: u64,
        open: bool,
        no_wait: bool,
        no_cleanup: bool,
        ignore_ci_failure: bool,
        interval: u64,
    },
    /// Worktree management.
    Worktree { command: WorktreeCommands },
}

/// The worktree commands.
#[derive(Debug, Clone, PartialEq, Eq)]
pub enum WorktreeCommands {
    /// The pool of pre-made worktrees.
    Pool { command: PoolCommands },
}

/// The pool commands.
#[derive(Debug, Clone, PartialEq, Eq)]
pub enum PoolCommands {
    /// Create worktrees until `count` are available.
    Warm { count: usize },
    /// Take a clean worktree and print its path.
    Acquire,
    /// Show the pool.
    Status,
    /// Return a worktree (or every acquired one) to the pool.
    Release { name: Option<String> },
    /// Remove every worktree of the pool.
    Drain { force: bool },
}

} // verus!
