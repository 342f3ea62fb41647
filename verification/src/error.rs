//! The error type of the workflow commands.

use vstd::prelude::*;

use crate::text::{cat, cat3, cat5, u64_to_decimal, decimal_view};

verus! {

/// The result of a workflow operation.
pub type Result<T> = std::result::Result<T, GwError>;

/// Everything that can make a workflow command fail.
#[derive(Debug, Clone)]
pub enum GwError {
    NotAGitRepository,
    GitCommandFailed(String),
    BranchAlreadyExists(String),
    BranchNotFound(String),
    ProtectedBranch(String),
    UncommittedChanges,
    UnpushedCommits(String, usize),
    AlreadyOnHomeBranch(String),
    BranchNameRequired,
    /// A failed file-system operation, with the system's message.
    Io(String),
    NothingToUndo,
    /// The branch cannot be checked out because another worktree holds it.
    BranchCheckedOutElsewhere { branch: String, path: Option<String> },
    PoolNotInitialized,
    PoolExhausted,
    /// Every available pool worktree is dirty or mid-operation.
    PoolNoCleanWorktree,
    PoolWorktreeNotFound(String),
    /// The named pool worktree is not acquired, so it cannot be released.
    PoolWorktreeNotAcquired(String),
    /// The named pool worktree cannot go back to the pool in its state.
    PoolWorktreeDirty { name: String, reason: String },
    /// A release of every acquired worktree found none.
    PoolNoneAcquired,
    PoolHasAcquiredWorktrees(usize),
    PoolLockTimeout,
    Other(String),
}

/// An error with its texts taken as character sequences.
pub enum GwErrorView {
    NotAGitRepository,
    GitCommandFailed(Seq<char>),
    BranchAlreadyExists(Seq<char>),
    BranchNotFound(Seq<char>),
    ProtectedBranch(Seq<char>),
    UncommittedChanges,
    UnpushedCommits(Seq<char>, nat),
    AlreadyOnHomeBranch(Seq<char>),
    BranchNameRequired,
    Io(Seq<char>),
    NothingToUndo,
    BranchCheckedOutElsewhere { branch: Seq<char>, path: Option<Seq<char>> },
    PoolNotInitialized,
    PoolExhausted,
    PoolNoCleanWorktree,
    PoolWorktreeNotFound(Seq<char>),
    PoolWorktreeNotAcquired(Seq<char>),
    PoolWorktreeDirty { name: Seq<char>, reason: Seq<char> },
    PoolNoneAcquired,
    PoolHasAcquiredWorktrees(nat),
    PoolLockTimeout,
    Other(Seq<char>),
}

/// The view of an optional string.
pub open spec fn opt_view(o: Option<String>) -> Option<Seq<char>> {
    match o {
        Some(s) => Some(s@),
        None => None,
    }
}

impl View for GwError {
    type V = GwErrorView;

    open spec fn view(&self) -> GwErrorView {
        match self {
            GwError::NotAGitRepository => GwErrorView::NotAGitRepository,
            GwError::GitCommandFailed(s) => GwErrorView::GitCommandFailed(s@),
            GwError::BranchAlreadyExists(s) => GwErrorView::BranchAlreadyExists(s@),
            GwError::BranchNotFound(s) => GwErrorView::BranchNotFound(s@),
            GwError::ProtectedBranch(s) => GwErrorView::ProtectedBranch(s@),
            GwError::UncommittedChanges => GwErrorView::UncommittedChanges,
            GwError::UnpushedCommits(s, n) => GwErrorView::UnpushedCommits(s@, *n as nat),
            GwError::AlreadyOnHomeBranch(s) => GwErrorView::AlreadyOnHomeBranch(s@),
            GwError::BranchNameRequired => GwErrorView::BranchNameRequired,
            GwError::Io(s) => GwErrorView::Io(s@),
            GwError::NothingToUndo => GwErrorView::NothingToUndo,
            GwError::BranchCheckedOutElsewhere { branch, path } => GwErrorView::BranchCheckedOutElsewhere {
                branch: branch@,
                path: opt_view(*path),
            },
            GwError::PoolNotInitialized => GwErrorView::PoolNotInitialized,
            GwError::PoolExhausted => GwErrorView::PoolExhausted,
            GwError::PoolNoCleanWorktree => GwErrorView::PoolNoCleanWorktree,
            GwError::PoolWorktreeNotFound(s) => GwErrorView::PoolWorktreeNotFound(s@),
            GwError::PoolWorktreeNotAcquired(s) => GwErrorView::PoolWorktreeNotAcquired(s@),
            GwError::PoolWorktreeDirty { name, reason } => GwErrorView::PoolWorktreeDirty {
                name: name@,
                reason: reason@,
            },
            GwError::PoolNoneAcquired => GwErrorView::PoolNoneAcquired,
            GwError::PoolHasAcquiredWorktrees(n) => GwErrorView::PoolHasAcquiredWorktrees(*n as nat),
            GwError::PoolLockTimeout => GwErrorView::PoolLockTimeout,
            GwError::Other(s) => GwErrorView::Other(s@),
        }
    }
}

/// The message that describes an error to the user.
pub open spec fn message_view(e: GwErrorView) -> Seq<char> {
    match e {
        GwErrorView::NotAGitRepository => "Not in a git repository"@,
        GwErrorView::GitCommandFailed(s) => "Git command failed: "@ + s,
        GwErrorView::BranchAlreadyExists(s) => "Branch '"@ + s + "' already exists"@,
        GwErrorView::BranchNotFound(s) => "Branch '"@ + s + "' does not exist"@,
        GwErrorView::ProtectedBranch(s) => "Cannot delete protected branch: "@ + s,
        GwErrorView::UncommittedChanges => "Uncommitted changes detected. Commit or stash them first."@,
        GwErrorView::UnpushedCommits(s, n) => "Branch '"@ + s + "' has "@ + decimal_view(n)
            + " unpushed commit(s)"@,
        GwErrorView::AlreadyOnHomeBranch(s) => "Already on home branch '"@ + s
            + "'. Specify a branch to delete."@,
        GwErrorView::BranchNameRequired => "Branch name is required"@,
        GwErrorView::Io(s) => "IO error: "@ + s,
        GwErrorView::NothingToUndo => "Cannot undo: no commits to undo (initial commit or empty history)"@,
        GwErrorView::BranchCheckedOutElsewhere { branch, path } => match path {
            Some(p) => "Branch '"@ + branch + "' is checked out in another worktree at '"@ + p
                + "'"@,
            None => "Branch '"@ + branch + "' is checked out in another worktree"@,
        },
        GwErrorView::PoolNotInitialized => "Worktree pool is not initialized. Run `gw worktree pool warm <n>` first."@,
        GwErrorView::PoolExhausted => "No available worktrees in the pool. Run `gw worktree pool warm <n>` to add more."@,
        GwErrorView::PoolNoCleanWorktree => "No clean worktree available in the pool. Run `gw worktree pool status` to inspect the pool."@,
        GwErrorView::PoolWorktreeNotFound(s) => "Worktree not found in pool: "@ + s,
        GwErrorView::PoolWorktreeNotAcquired(s) => "Worktree "@ + s + " is not acquired"@,
        GwErrorView::PoolWorktreeDirty { name, reason } => "Worktree "@ + name
            + " is not in a clean state: "@ + reason,
        GwErrorView::PoolNoneAcquired => "No acquired worktrees to release"@,
        GwErrorView::PoolHasAcquiredWorktrees(n) => "Pool has "@ + decimal_view(n)
            + " acquired worktree(s). Release them first or use --force."@,
        GwErrorView::PoolLockTimeout => "Could not acquire pool lock within timeout"@,
        GwErrorView::Other(s) => s,
    }
}

impl GwError {
    /// The message that describes this error to the user.
    pub fn to_string(&self) -> (r: String)
        ensures
            r@ == message_view(self@),
    {
        match self {
            GwError::NotAGitRepository => "Not in a git repository".to_string(),
            GwError::GitCommandFailed(s) => cat("Git command failed: ", s.as_str()),
            GwError::BranchAlreadyExists(s) => cat3("Branch '", s.as_str(), "' already exists"),
            GwError::BranchNotFound(s) => cat3("Branch '", s.as_str(), "' does not exist"),
            GwError::ProtectedBranch(s) => cat("Cannot delete protected branch: ", s.as_str()),
            GwError::UncommittedChanges => "Uncommitted changes detected. Commit or stash them first.".to_string(),
            GwError::UnpushedCommits(s, n) => {
                let d = u64_to_decimal(*n as u64);
                cat5("Branch '", s.as_str(), "' has ", d.as_str(), " unpushed commit(s)")
            },
            GwError::AlreadyOnHomeBranch(s) => cat3(
                "Already on home branch '",
                s.as_str(),
                "'. Specify a branch to delete.",
            ),
            GwError::BranchNameRequired => "Branch name is required".to_string(),
            GwError::Io(s) => cat("IO error: ", s.as_str()),
            GwError::NothingToUndo => "Cannot undo: no commits to undo (initial commit or empty history)".to_string(),
            GwError::BranchCheckedOutElsewhere { branch, path } => match path {
                Some(p) => cat5(
                    "Branch '",
                    branch.as_str(),
                    "' is checked out in another worktree at '",
                    p.as_str(),
                    "'",
                ),
                None => cat3("Branch '", branch.as_str(), "' is checked out in another worktree"),
            },
            GwError::PoolNotInitialized => "Worktree pool is not initialized. Run `gw worktree pool warm <n>` first.".to_string(),
            GwError::PoolExhausted => "No available worktrees in the pool. Run `gw worktree pool warm <n>` to add more.".to_string(),
            GwError::PoolNoCleanWorktree => "No clean worktree available in the pool. Run `gw worktree pool status` to inspect the pool.".to_string(),
            GwError::PoolWorktreeNotFound(s) => cat("Worktree not found in pool: ", s.as_str()),
            GwError::PoolWorktreeNotAcquired(s) => cat3("Worktree ", s.as_str(), " is not acquired"),
            GwError::PoolWorktreeDirty { name, reason } => {
                let head = cat3("Worktree ", name.as_str(), " is not in a clean state: ");
                cat(head.as_str(), reason.as_str())
            },
            GwError::PoolNoneAcquired => "No acquired worktrees to release".to_string(),
            GwError::PoolHasAcquiredWorktrees(n) => {
                let d = u64_to_decimal(*n as u64);
                cat3(
                    "Pool has ",
                    d.as_str(),
                    " acquired worktree(s). Release them first or use --force.",
                )
            },
            GwError::PoolLockTimeout => "Could not acquire pool lock within timeout".to_string(),
            GwError::Other(s) => s.clone(),
        }
    }
}

} // verus!
