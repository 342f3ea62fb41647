//! How a branch stands against its upstream.

use vstd::prelude::*;

use crate::error::GwError;
use crate::git::query::{
    behind_upstream_count, count_view, has_remote_tracking, nonempty_output, rev_count_args,
    unpushed_commit_count, upstream_args,
};
use crate::git::{extends, git_call_at, lemma_extends};
use crate::github::client::{CallRecord, CommandExecutor};
use crate::text::{cat, cat3, u64_to_decimal, decimal_view};

verus! {

/// How a branch stands against its upstream tracking branch.
#[derive(Debug, Clone, PartialEq, Eq, Structural)]
pub enum SyncState {
    /// No upstream tracking branch.
    NoUpstream,
    /// Neither ahead nor behind.
    Synced,
    /// Ahead only.
    HasUnpushedCommits { count: usize },
    /// Behind only.
    Behind { count: usize },
    /// Both ahead and behind.
    Diverged { ahead: usize, behind: usize },
}

/// The state for a branch with or without upstream, `ahead` commits not
/// pushed and `behind` commits not pulled.
pub open spec fn sync_state_of(has_upstream: bool, ahead: usize, behind: usize) -> SyncState {
    if !has_upstream {
        SyncState::NoUpstream
    } else if ahead == 0 && behind == 0 {
        SyncState::Synced
    } else if behind == 0 {
        SyncState::HasUnpushedCommits { count: ahead }
    } else if ahead == 0 {
        SyncState::Behind { count: behind }
    } else {
        SyncState::Diverged { ahead, behind }
    }
}

/// The description of a sync state.
pub open spec fn sync_description(s: SyncState) -> Seq<char> {
    match s {
        SyncState::NoUpstream => "no upstream"@,
        SyncState::Synced => "synced"@,
        SyncState::HasUnpushedCommits { count } => decimal_view(count as nat) + " unpushed commit(s)"@,
        SyncState::Behind { count } => decimal_view(count as nat) + " commit(s) behind"@,
        SyncState::Diverged { ahead, behind } => decimal_view(ahead as nat) + " ahead, "@
            + decimal_view(behind as nat) + " behind"@,
    }
}

/// The number of runs of an upstream count that starts at record `i` of `h`.
pub open spec fn upstream_count_runs(h: Seq<CallRecord>, i: int) -> int {
    if nonempty_output(h[i].result) is Some {
        2
    } else {
        1
    }
}

/// The count that the upstream count starting at record `i` of `h` gives;
/// 0 when there is no upstream or the count fails.
pub open spec fn upstream_count_value(h: Seq<CallRecord>, i: int) -> nat {
    match nonempty_output(h[i].result) {
        Some(_) => match count_view(h[i + 1].result) {
            Ok(c) => c,
            Err(_) => 0,
        },
        None => 0,
    }
}

/// The runs of an upstream count of `branch` (ahead of its upstream, or
/// behind it) start at record `i` of `h`.
pub open spec fn upstream_count_calls(h: Seq<CallRecord>, i: int, branch: Seq<char>, ahead: bool) -> bool {
    &&& git_call_at(h, i, upstream_args(branch))
    &&& match nonempty_output(h[i].result) {
        Some(u) => git_call_at(h, i + 1, if ahead { rev_count_args(u, branch) } else { rev_count_args(branch, u) }),
        None => true,
    }
}

/// The index after the runs of a sync state detection that starts at record `n` of `h`.
pub open spec fn sync_detect_end(h: Seq<CallRecord>, n: int) -> int {
    let i = n + 1;
    let j = i + upstream_count_runs(h, i);
    if nonempty_output(h[n].result) is None {
        n + 1
    } else {
        j + upstream_count_runs(h, j)
    }
}

/// The runs of a sync state detection of `branch` start at record `n` of `h`.
pub open spec fn sync_detect_calls(h: Seq<CallRecord>, n: int, branch: Seq<char>) -> bool {
    let i = n + 1;
    let j = i + upstream_count_runs(h, i);
    &&& git_call_at(h, n, upstream_args(branch))
    &&& nonempty_output(h[n].result) is Some ==> {
        &&& upstream_count_calls(h, i, branch, true)
        &&& upstream_count_calls(h, j, branch, false)
    }
}

/// The state that a sync state detection starting at record `n` of `h` gives.
pub open spec fn sync_detect_result(h: Seq<CallRecord>, n: int) -> SyncState {
    let i = n + 1;
    let j = i + upstream_count_runs(h, i);
    if nonempty_output(h[n].result) is None {
        SyncState::NoUpstream
    } else {
        sync_state_of(true, upstream_count_value(h, i) as usize, upstream_count_value(h, j) as usize)
    }
}

impl SyncState {
    /// Ask git how `branch` stands against its upstream. A count that cannot
    /// be read counts as 0.
    pub fn detect<E: CommandExecutor>(exec: &mut E, branch: &str) -> (r: Result<SyncState, GwError>)
        ensures
            ({
                let h0 = old(exec).history();
                let h = final(exec).history();
                let n = h0.len() as int;
                &&& extends(h0, h)
                &&& sync_detect_calls(h, n, branch@)
                &&& h.len() == sync_detect_end(h, n)
                &&& r == Ok::<SyncState, GwError>(sync_detect_result(h, n))
            }),
    {
        let ghost h0 = exec.history();
        let ghost n = h0.len() as int;
        if !has_remote_tracking(exec, branch) {
            assert(exec.history().take(n) =~= h0);
            return Ok(SyncState::NoUpstream);
        }
        let ghost h1 = exec.history();
        let ahead = match unpushed_commit_count(exec, branch) {
            Ok(c) => c,
            Err(_) => 0,
        };
        let ghost h2 = exec.history();
        let behind = match behind_upstream_count(exec, branch) {
            Ok(c) => c,
            Err(_) => 0,
        };
        let ghost h3 = exec.history();
        proof {
            assert(extends(h0, h1)) by {
                assert(h1.take(n) =~= h0);
            }
            lemma_extends(h1, h2);
            lemma_extends(h2, h3);
            assert(h2[n] == h1[n]);
            assert(h3[n] == h2[n]);
            assert(h3[n + 1] == h2[n + 1]);
            if upstream_count_runs(h2, n + 1) == 2 {
                assert(h3[n + 2] == h2[n + 2]);
            }
            assert(h3.take(n) =~= h0) by {
                assert(h3.take(h2.len() as int) == h2);
                assert(h2.take(h1.len() as int) == h1);
            }
        }
        Ok(SyncState::from_counts(true, ahead, behind))
    }

    /// Classify a branch from whether it tracks an upstream and its counts of
    /// commits ahead of and behind it (a count that could not be read is 0).
    pub fn from_counts(has_upstream: bool, ahead: usize, behind: usize) -> (r: SyncState)
        ensures
            r == sync_state_of(has_upstream, ahead, behind),
    {
        if !has_upstream {
            return SyncState::NoUpstream;
        }
        if ahead == 0 && behind == 0 {
            SyncState::Synced
        } else if behind == 0 {
            SyncState::HasUnpushedCommits { count: ahead }
        } else if ahead == 0 {
            SyncState::Behind { count: behind }
        } else {
            SyncState::Diverged { ahead, behind }
        }
    }

    /// Whether there are commits that were not pushed.
    pub fn has_unpushed(&self) -> (r: bool)
        ensures
            r == (*self is HasUnpushedCommits || *self is Diverged),
    {
        match self {
            SyncState::HasUnpushedCommits { .. } => true,
            SyncState::Diverged { .. } => true,
            _ => false,
        }
    }

    /// The number of commits that were not pushed.
    pub fn unpushed_count(&self) -> (r: usize)
        ensures
            r == match *self {
                SyncState::HasUnpushedCommits { count } => count,
                SyncState::Diverged { ahead, .. } => ahead,
                _ => 0,
            },
    {
        match self {
            SyncState::HasUnpushedCommits { count } => *count,
            SyncState::Diverged { ahead, .. } => *ahead,
            _ => 0,
        }
    }

    /// A short description for the user.
    pub fn description(&self) -> (r: String)
        ensures
            r@ == sync_description(*self),
    {
        match self {
            SyncState::NoUpstream => "no upstream".to_string(),
            SyncState::Synced => "synced".to_string(),
            SyncState::HasUnpushedCommits { count } => {
                let d = u64_to_decimal(*count as u64);
                cat(d.as_str(), " unpushed commit(s)")
            },
            SyncState::Behind { count } => {
                let d = u64_to_decimal(*count as u64);
                cat(d.as_str(), " commit(s) behind")
            },
            SyncState::Diverged { ahead, behind } => {
                let a = u64_to_decimal(*ahead as u64);
                let b = u64_to_decimal(*behind as u64);
                let head = cat(a.as_str(), " ahead, ");
                cat3(head.as_str(), b.as_str(), " behind")
            },
        }
    }
}

/// A detected state reports unpushed commits exactly when its count of them is positive.
pub proof fn lemma_detected_unpushed_matches_count(has_upstream: bool, ahead: usize, behind: usize)
    ensures
        ({
            let s = sync_state_of(has_upstream, ahead, behind);
            (s is HasUnpushedCommits || s is Diverged) <==> (has_upstream && ahead > 0)
        }),
{
}

} // verus!
