//! Steps shared by several commands: moving the home branch's ref ahead of a
//! checkout, and pulling with a report of what came in.

use vstd::prelude::*;

use crate::error::{GwError, GwErrorView};
use crate::git::query::{count_view, rev_count_args};
use crate::git::{extends, git_call_at, output_view, run_view};
use crate::github::client::{ran_ok, CallRecord, CommandExecutor};
use crate::text::str_eq;

verus! {

/// What became of fast-forwarding the home branch's ref.
#[derive(Debug)]
pub enum FastForward {
    /// Not a pure fast-forward (or nothing to do): left alone.
    Skipped,
    /// Moved forward by this many commits.
    Moved(usize),
    /// git refused to move it (for instance, another worktree holds it).
    Refused(GwError),
}

/// The record of a fast-forward attempt, with its error as a view.
pub enum FastForwardView {
    Skipped,
    Moved(nat),
    Refused(GwErrorView),
}

impl View for FastForward {
    type V = FastForwardView;

    open spec fn view(&self) -> FastForwardView {
        match self {
            FastForward::Skipped => FastForwardView::Skipped,
            FastForward::Moved(n) => FastForwardView::Moved(*n as nat),
            FastForward::Refused(e) => FastForwardView::Refused(e@),
        }
    }
}

/// How many commits the count at record `i` of `h` gives, 0 when it fails.
pub open spec fn behind_at(h: Seq<CallRecord>, i: int) -> nat {
    match count_view(h[i].result) {
        Ok(c) => c,
        Err(_) => 0,
    }
}

/// The index after a fast-forward attempt whose runs start at record `n` of `h`.
pub open spec fn fast_forward_end(h: Seq<CallRecord>, n: int) -> int {
    if !ran_ok(h[n].result) {
        n + 1
    } else if !ran_ok(h[n + 1].result) {
        n + 2
    } else if behind_at(h, n + 2) == 0 {
        n + 3
    } else {
        n + 4
    }
}

/// The runs of a fast-forward attempt of `home` to `remote` start at record `n` of `h`.
pub open spec fn fast_forward_calls(h: Seq<CallRecord>, n: int, home: Seq<char>, remote: Seq<char>) -> bool {
    let e = fast_forward_end(h, n);
    &&& git_call_at(h, n, seq!["rev-parse"@, "--verify"@, "--quiet"@, remote])
    &&& n + 1 < e ==> git_call_at(h, n + 1, seq!["merge-base"@, "--is-ancestor"@, home, remote])
    &&& n + 2 < e ==> git_call_at(h, n + 2, rev_count_args(home, remote))
    &&& n + 3 < e ==> git_call_at(h, n + 3, seq!["branch"@, "-f"@, home, remote])
}

/// What a fast-forward attempt whose runs start at record `n` of `h` gives.
pub open spec fn fast_forward_result(h: Seq<CallRecord>, n: int) -> FastForwardView {
    if fast_forward_end(h, n) < n + 4 {
        FastForwardView::Skipped
    } else {
        match run_view(h[n + 3].result) {
            Ok(()) => FastForwardView::Moved(behind_at(h, n + 2)),
            Err(e) => FastForwardView::Refused(e),
        }
    }
}

/// Move the home branch's ref to the default remote branch before checking it
/// out, so that the working tree moves only once. Acts only when `home` is
/// strictly behind `remote` and an ancestor of it (a pure fast-forward);
/// `git branch -f` itself refuses a branch that some worktree has checked
/// out. Call after fetching, when `home` is not the current branch.
pub fn fast_forward_home_ref<E: CommandExecutor>(exec: &mut E, home_branch: &str, default_remote: &str) -> (r: FastForward)
    ensures
        ({
            let h0 = old(exec).history();
            let h = final(exec).history();
            let n = h0.len() as int;
            &&& extends(h0, h)
            &&& fast_forward_calls(h, n, home_branch@, default_remote@)
            &&& h.len() == fast_forward_end(h, n)
            &&& r@ == fast_forward_result(h, n)
        }),
{
    let ghost h0 = exec.history();
    let ghost n = h0.len() as int;
    let exists = crate::git::query::ref_exists(exec, default_remote);
    let ghost h1 = exec.history();
    if !exists {
        assert(exec.history().take(n) =~= h0);
        return FastForward::Skipped;
    }
    let anc = crate::git::query::is_ancestor(exec, home_branch, default_remote);
    let ghost h2 = exec.history();
    proof {
        assert(h2.drop_last() == h1);
        assert(h2[n] == h1[n]);
    }
    if !anc {
        assert(exec.history().take(n) =~= h0);
        return FastForward::Skipped;
    }
    let behind = crate::git::query::behind_base_count(exec, home_branch, default_remote);
    let ghost h3 = exec.history();
    proof {
        assert(h3.drop_last() == h2);
        assert(h3[n] == h2[n]);
        assert(h3[n + 1] == h2[n + 1]);
    }
    if behind == 0 {
        assert(exec.history().take(n) =~= h0);
        return FastForward::Skipped;
    }
    let res = crate::git::mutation::force_update_branch(exec, home_branch, default_remote);
    proof {
        let h4 = exec.history();
        assert(h4.drop_last() == h3);
        assert(h4[n] == h3[n]);
        assert(h4[n + 1] == h3[n + 1]);
        assert(h4[n + 2] == h3[n + 2]);
        assert(h4.take(n) =~= h0);
    }
    match res {
        Ok(()) => FastForward::Moved(behind),
        Err(e) => FastForward::Refused(e),
    }
}

/// What a fast-forward-only pull brought in.
#[derive(Debug)]
pub enum PullOutcome {
    /// Nothing new.
    UpToDate,
    /// This many new commits.
    Pulled(usize),
    /// The pull could not fast-forward: the branch diverged from the remote.
    Diverged(GwError),
}

/// A pull's outcome with its error as a view.
pub enum PullOutcomeView {
    UpToDate,
    Pulled(nat),
    Diverged(GwErrorView),
}

/// The view of a pull result.
pub open spec fn pull_result_view(r: Result<PullOutcome, GwError>) -> Result<PullOutcomeView, GwErrorView> {
    match r {
        Ok(PullOutcome::UpToDate) => Ok(PullOutcomeView::UpToDate),
        Ok(PullOutcome::Pulled(c)) => Ok(PullOutcomeView::Pulled(c as nat)),
        Ok(PullOutcome::Diverged(e)) => Ok(PullOutcomeView::Diverged(e@)),
        Err(e) => Err(e@),
    }
}

/// The index after a pull whose runs start at record `n` of `h`.
pub open spec fn pull_end(h: Seq<CallRecord>, n: int) -> int {
    if output_view(h[n].result) is Err {
        n + 1
    } else if run_view(h[n + 1].result) is Err {
        n + 2
    } else if output_view(h[n + 2].result) is Err || output_view(h[n + 2].result) == output_view(h[n].result) {
        n + 3
    } else {
        n + 4
    }
}

/// The runs of a pull of `branch` from `origin` start at record `n` of `h`.
pub open spec fn pull_calls(h: Seq<CallRecord>, n: int, branch: Seq<char>) -> bool {
    let e = pull_end(h, n);
    &&& git_call_at(h, n, seq!["rev-parse"@, "HEAD"@])
    &&& n + 1 < e ==> git_call_at(h, n + 1, seq!["pull"@, "origin"@, branch, "--ff-only"@, "--quiet"@])
    &&& n + 2 < e ==> git_call_at(h, n + 2, seq!["rev-parse"@, "HEAD"@])
    &&& n + 3 < e ==> git_call_at(
        h,
        n + 3,
        rev_count_args(output_view(h[n].result)->Ok_0, output_view(h[n + 2].result)->Ok_0),
    )
}

/// What a pull whose runs start at record `n` of `h` gives.
pub open spec fn pull_result(h: Seq<CallRecord>, n: int) -> Result<PullOutcomeView, GwErrorView> {
    match output_view(h[n].result) {
        Err(e) => Err(e),
        Ok(before) => match run_view(h[n + 1].result) {
            Err(e) => Ok(PullOutcomeView::Diverged(e)),
            Ok(()) => match output_view(h[n + 2].result) {
                Err(e) => Err(e),
                Ok(after) => if after == before {
                    Ok(PullOutcomeView::UpToDate)
                } else {
                    match count_view(h[n + 3].result) {
                        Err(e) => Err(e),
                        Ok(c) => Ok(PullOutcomeView::Pulled(c)),
                    }
                },
            },
        },
    }
}

/// Pull `default_branch` from `origin`, fast-forward only, and report how
/// many commits came in. A diverged branch is reported, not merged.
pub fn pull_with_output<E: CommandExecutor>(exec: &mut E, default_branch: &str) -> (r: Result<PullOutcome, GwError>)
    ensures
        ({
            let h0 = old(exec).history();
            let h = final(exec).history();
            let n = h0.len() as int;
            &&& extends(h0, h)
            &&& pull_calls(h, n, default_branch@)
            &&& h.len() == pull_end(h, n)
            &&& pull_result_view(r) == pull_result(h, n)
        }),
{
    let ghost h0 = exec.history();
    let ghost n = h0.len() as int;
    let before = crate::git::query::head_commit(exec);
    let ghost h1 = exec.history();
    let before = match before {
        Ok(b) => b,
        Err(e) => {
            assert(exec.history().take(n) =~= h0);
            return Err(e);
        },
    };
    let pulled = crate::git::mutation::pull_ff_only(exec, "origin", default_branch);
    let ghost h2 = exec.history();
    proof {
        assert(h2.drop_last() == h1);
        assert(h2[n] == h1[n]);
    }
    if let Err(e) = pulled {
        assert(exec.history().take(n) =~= h0);
        return Ok(PullOutcome::Diverged(e));
    }
    let after = crate::git::query::head_commit(exec);
    let ghost h3 = exec.history();
    proof {
        assert(h3.drop_last() == h2);
        assert(h3[n] == h2[n]);
        assert(h3[n + 1] == h2[n + 1]);
    }
    let after = match after {
        Ok(a) => a,
        Err(e) => {
            assert(exec.history().take(n) =~= h0);
            return Err(e);
        },
    };
    if str_eq(before.as_str(), after.as_str()) {
        assert(exec.history().take(n) =~= h0);
        return Ok(PullOutcome::UpToDate);
    }
    let count = crate::git::query::commit_count(exec, before.as_str(), after.as_str());
    proof {
        let h4 = exec.history();
        assert(h4.drop_last() == h3);
        assert(h4[n] == h3[n]);
        assert(h4[n + 1] == h3[n + 1]);
        assert(h4[n + 2] == h3[n + 2]);
        assert(h4.take(n) =~= h0);
    }
    match count {
        Ok(c) => Ok(PullOutcome::Pulled(c)),
        Err(e) => Err(e),
    }
}

/// The home branch's ref is moved only by a pure fast-forward: when
/// `remote` exists, `home` is its ancestor and strictly behind it.
pub proof fn lemma_fast_forward_only_when_behind(h: Seq<CallRecord>, n: int, home: Seq<char>, remote: Seq<char>)
    requires
        fast_forward_calls(h, n, home, remote),
        fast_forward_result(h, n) is Moved,
    ensures
        ran_ok(h[n].result),
        ran_ok(h[n + 1].result),
        git_call_at(h, n + 1, seq!["merge-base"@, "--is-ancestor"@, home, remote]),
        behind_at(h, n + 2) > 0,
{
}

/// A fast-forward attempt that ended inside `h1` reads the same in any continuation `h2`.
pub proof fn lemma_fast_forward_frame(h1: Seq<CallRecord>, h2: Seq<CallRecord>, n: int, home: Seq<char>, remote: Seq<char>)
    requires
        extends(h1, h2),
        0 <= n,
        fast_forward_end(h1, n) <= h1.len(),
        fast_forward_calls(h1, n, home, remote),
    ensures
        fast_forward_end(h2, n) == fast_forward_end(h1, n),
        fast_forward_calls(h2, n, home, remote),
        fast_forward_result(h2, n) == fast_forward_result(h1, n),
{
    crate::git::lemma_extends(h1, h2);
    let e = fast_forward_end(h1, n);
    assert(h2[n] == h1[n]);
    if n + 1 < e {
        assert(h2[n + 1] == h1[n + 1]);
    }
    if n + 2 < e {
        assert(h2[n + 2] == h1[n + 2]);
    }
    if n + 3 < e {
        assert(h2[n + 3] == h1[n + 3]);
    }
}

} // verus!
