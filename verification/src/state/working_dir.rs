//! The state of the working directory.

use vstd::prelude::*;

use crate::git::query::{has_staged_changes, has_unstaged_changes, has_untracked_files, nonempty_output};
use crate::git::{extends, git_call_at};
use crate::github::client::{ran_ok, CallRecord, CommandExecutor};

verus! {

/// What the working directory holds besides the last commit.
#[derive(Debug, Clone, PartialEq, Eq, Structural)]
pub enum WorkingDirState {
    /// No changes and no untracked files.
    Clean,
    HasUnstagedChanges,
    HasStagedChanges,
    HasMixedChanges,
    /// Untracked files only, no tracked changes.
    HasUntrackedFiles,
}

/// The state for the given kinds of changes; tracked changes take precedence.
pub open spec fn working_dir_of(unstaged: bool, staged: bool, untracked: bool) -> WorkingDirState {
    if unstaged && staged {
        WorkingDirState::HasMixedChanges
    } else if unstaged {
        WorkingDirState::HasUnstagedChanges
    } else if staged {
        WorkingDirState::HasStagedChanges
    } else if untracked {
        WorkingDirState::HasUntrackedFiles
    } else {
        WorkingDirState::Clean
    }
}

/// The description of a working directory state.
pub open spec fn working_dir_description(s: WorkingDirState) -> Seq<char> {
    match s {
        WorkingDirState::Clean => "clean"@,
        WorkingDirState::HasUnstagedChanges => "has unstaged changes"@,
        WorkingDirState::HasStagedChanges => "has staged changes"@,
        WorkingDirState::HasMixedChanges => "has staged and unstaged changes"@,
        WorkingDirState::HasUntrackedFiles => "has untracked files"@,
    }
}

/// The three runs that classify the working directory start at record `n` of `h`.
pub open spec fn working_dir_calls(h: Seq<CallRecord>, n: int) -> bool {
    &&& git_call_at(h, n, seq!["diff"@, "--quiet"@])
    &&& git_call_at(h, n + 1, seq!["diff"@, "--cached"@, "--quiet"@])
    &&& git_call_at(h, n + 2, seq!["ls-files"@, "--others"@, "--exclude-standard"@])
}

/// The working directory state that the runs from record `n` of `h` show.
pub open spec fn working_dir_at(h: Seq<CallRecord>, n: int) -> WorkingDirState {
    working_dir_of(!ran_ok(h[n].result), !ran_ok(h[n + 1].result), nonempty_output(h[n + 2].result) is Some)
}

impl WorkingDirState {
    /// Ask git for unstaged changes, staged changes and untracked files, and
    /// classify the working directory. Untracked files count as changes, so
    /// that new, unstaged files are never left behind.
    pub fn detect<E: CommandExecutor>(exec: &mut E) -> (r: Self)
        ensures
            extends(old(exec).history(), final(exec).history()),
            final(exec).history().len() == old(exec).history().len() + 3,
            working_dir_calls(final(exec).history(), old(exec).history().len() as int),
            r == working_dir_at(final(exec).history(), old(exec).history().len() as int),
    {
        let ghost h0 = exec.history();
        let unstaged = has_unstaged_changes(exec);
        let ghost h1 = exec.history();
        let staged = has_staged_changes(exec);
        let ghost h2 = exec.history();
        let untracked = has_untracked_files(exec);
        let ghost h3 = exec.history();
        proof {
            assert(h2.drop_last() == h1);
            assert(h3.drop_last() == h2);
            assert(h3[h0.len() as int] == h2[h0.len() as int]);
            assert(h2[h0.len() as int] == h1[h0.len() as int]);
            assert(h3[h0.len() as int + 1] == h2[h0.len() as int + 1]);
            assert(h3.take(h0.len() as int) =~= h0);
        }
        WorkingDirState::from_flags(unstaged, staged, untracked)
    }

    /// Classify the working directory from whether it has unstaged changes,
    /// staged changes and untracked files.
    pub fn from_flags(has_unstaged: bool, has_staged: bool, has_untracked: bool) -> (r: Self)
        ensures
            r == working_dir_of(has_unstaged, has_staged, has_untracked),
    {
        if has_unstaged && has_staged {
            WorkingDirState::HasMixedChanges
        } else if has_unstaged {
            WorkingDirState::HasUnstagedChanges
        } else if has_staged {
            WorkingDirState::HasStagedChanges
        } else if has_untracked {
            WorkingDirState::HasUntrackedFiles
        } else {
            WorkingDirState::Clean
        }
    }

    /// No tracked changes and no untracked files.
    pub fn is_clean(&self) -> (r: bool)
        ensures
            r == (*self is Clean),
    {
        match self {
            WorkingDirState::Clean => true,
            _ => false,
        }
    }

    /// Staged or unstaged changes to tracked files, whatever the untracked files.
    pub fn has_tracked_changes(&self) -> (r: bool)
        ensures
            r == (*self is HasUnstagedChanges || *self is HasStagedChanges || *self is HasMixedChanges),
    {
        match self {
            WorkingDirState::HasUnstagedChanges => true,
            WorkingDirState::HasStagedChanges => true,
            WorkingDirState::HasMixedChanges => true,
            _ => false,
        }
    }

    /// A short description for the user.
    pub fn description(&self) -> (r: &'static str)
        ensures
            r@ == working_dir_description(*self),
    {
        match self {
            WorkingDirState::Clean => "clean",
            WorkingDirState::HasUnstagedChanges => "has unstaged changes",
            WorkingDirState::HasStagedChanges => "has staged changes",
            WorkingDirState::HasMixedChanges => "has staged and unstaged changes",
            WorkingDirState::HasUntrackedFiles => "has untracked files",
        }
    }
}

/// The detected directory is clean exactly when nothing changed and nothing is
/// untracked, and it has tracked changes exactly when something staged or
/// unstaged exists: untracked files alone never count as tracked changes.
pub proof fn lemma_detect_clean_and_tracked(unstaged: bool, staged: bool, untracked: bool)
    ensures
        ({
            let s = working_dir_of(unstaged, staged, untracked);
            &&& (s is Clean) <==> (!unstaged && !staged && !untracked)
            &&& (s is HasUnstagedChanges || s is HasStagedChanges || s is HasMixedChanges) <==> (
            unstaged || staged)
        }),
{
}

} // verus!
