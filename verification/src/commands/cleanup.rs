//! `gw cleanup`: delete a merged branch and return home, deciding from the
//! pull request how far deletion may go.

use vstd::prelude::*;

use crate::commands::dependents::{
    guard_calls_at, guard_cleanup, guard_end, guard_result, guarded_remote_cleanup, lemma_guard_frame,
};
use crate::commands::home::{switch_to_home, HomeSwitch};
use crate::commands::sync::gh_version_at;
use crate::error::{GwError, GwErrorView};
use crate::git::query::{ls_remote_args, nonempty_output, remote_exists_view, show_ref_args, upstream_args};
use crate::git::{extends, git_call_at, lemma_extends, lemma_extends_trans, ran_git, run_view, unit_view};
use crate::state::working_dir::{working_dir_at, working_dir_calls, WorkingDirState};
use crate::github::client::{
    lookup_at, lookup_calls_at, lookup_runs, ran_ok, remote_delete_view, CallRecord, CommandExecutor, GitHubClient,
};
use crate::github::types::{merge_method_name, MergeMethod, PrInfo, PrInfoView, PrState, PrStateView};
use crate::state::branch::{Branch, Deletable};
use crate::state::sync::{sync_detect_calls, sync_detect_end, sync_detect_result, SyncState};
use crate::text::{cat3, cat5, decimal_view, str_eq, u64_to_decimal};

verus! {

/// Which branch `gw cleanup` deletes, or that it only returns a pool worktree.
#[derive(Debug)]
pub enum CleanupTarget {
    /// Delete this branch.
    Delete(String),
    /// On the home branch of a pool worktree: just release it to the pool.
    ReleasePool,
}

/// The branch to clean up: the named one, else the current one; on the home
/// branch there is nothing to delete, except that a pool worktree goes back
/// to its pool.
pub fn cleanup_target(branch_name: Option<String>, current: &str, home_branch: &str, in_pool: bool) -> (r: Result<
    CleanupTarget,
    GwError,
>)
    ensures
        match branch_name {
            Some(name) => r matches Ok(CleanupTarget::Delete(b)) && b@ == name@,
            None => if current@ == home_branch@ {
                if in_pool {
                    r matches Ok(CleanupTarget::ReleasePool)
                } else {
                    r matches Err(e) && e@ == GwErrorView::AlreadyOnHomeBranch(home_branch@)
                }
            } else {
                r matches Ok(CleanupTarget::Delete(b)) && b@ == current@
            },
        },
{
    match branch_name {
        Some(name) => Ok(CleanupTarget::Delete(name)),
        None => {
            if str_eq(current, home_branch) {
                if in_pool {
                    Ok(CleanupTarget::ReleasePool)
                } else {
                    Err(GwError::AlreadyOnHomeBranch(home_branch.to_string()))
                }
            } else {
                Ok(CleanupTarget::Delete(current.to_string()))
            }
        },
    }
}

/// Refuse to go on with uncommitted or untracked changes in the working tree.
pub fn require_clean(working_dir: &WorkingDirState) -> (r: Result<(), GwError>)
    ensures
        r is Ok <==> *working_dir is Clean,
        r matches Err(e) ==> e@ == GwErrorView::UncommittedChanges,
{
    if working_dir.is_clean() {
        Ok(())
    } else {
        Err(GwError::UncommittedChanges)
    }
}

/// Why a branch may or may not be force-deleted.
#[derive(Debug)]
pub enum ForceDelete {
    /// Its pull request was merged (this way): safe to force-delete.
    MergedPr(MergeMethod),
    /// Its pull request is still open.
    OpenPr,
    /// Its pull request was closed without merging.
    ClosedPr,
    /// No pull request, but the branch is on `origin`.
    RemoteExists,
    /// No pull request, and whether `origin` has the branch is unknown.
    RemoteUnknown(GwError),
    /// No pull request, and `origin` provably lacks the branch (never pushed,
    /// or already deleted there).
    NotOnRemote,
}

impl ForceDelete {
    /// Whether force deletion is allowed.
    pub open spec fn allows(&self) -> bool {
        self is MergedPr || self is NotOnRemote
    }

    /// Whether force deletion is allowed.
    pub fn allowed(&self) -> (r: bool)
        ensures
            r == self.allows(),
    {
        match self {
            ForceDelete::MergedPr(_) => true,
            ForceDelete::NotOnRemote => true,
            _ => false,
        }
    }
}

/// Whether a branch may be force-deleted: only when its pull request was
/// merged or, without a pull request, when `origin` provably lacks it. A
/// remote that cannot be asked never counts as lacking it.
pub fn should_allow_force_delete<E: CommandExecutor>(exec: &mut E, pr_info: &Option<PrInfo>, branch: &str) -> (r:
    ForceDelete)
    ensures
        match pr_info {
            Some(pr) => final(exec).history() == old(exec).history() && match pr@.state {
                PrStateView::Merged { method, .. } => r matches ForceDelete::MergedPr(m) && m == method,
                PrStateView::Open => r is OpenPr,
                PrStateView::Closed => r is ClosedPr,
            },
            None => {
                &&& crate::git::ran_git(old(exec).history(), final(exec).history(), ls_remote_args(branch@))
                &&& match remote_exists_view(final(exec).history().last().result, branch@) {
                    Ok(true) => r is RemoteExists,
                    Ok(false) => r is NotOnRemote,
                    Err(e) => r matches ForceDelete::RemoteUnknown(x) && x@ == e,
                }
            },
        },
        r.allows() == match pr_info {
            Some(pr) => pr@.state is Merged,
            None => remote_exists_view(final(exec).history().last().result, branch@) == Ok::<bool, GwErrorView>(false),
        },
{
    match pr_info {
        Some(pr) => match &pr.state {
            PrState::Merged { method, .. } => ForceDelete::MergedPr(*method),
            PrState::Open => ForceDelete::OpenPr,
            PrState::Closed => ForceDelete::ClosedPr,
        },
        None => match crate::git::query::remote_branch_exists(exec, branch) {
            Ok(true) => ForceDelete::RemoteExists,
            Ok(false) => ForceDelete::NotOnRemote,
            Err(e) => ForceDelete::RemoteUnknown(e),
        },
    }
}

/// What the check for unpushed commits found, when it did not refuse.
#[derive(Debug)]
pub enum UnpushedCheck {
    /// The branch tracks an upstream that has all its commits.
    Pushed,
    /// No tracking branch, but `origin` has the branch (the PR probably merged).
    RemoteWithoutTracking,
    /// No tracking branch and `origin` lacks the branch: never pushed.
    NeverPushed,
    /// No tracking branch, and `origin` could not be asked.
    RemoteUnknown,
}

/// The index after the unpushed-commit check that starts at record `n` of `h`.
pub open spec fn unpushed_check_end(h: Seq<CallRecord>, n: int) -> int {
    if nonempty_output(h[n].result) is Some {
        sync_detect_end(h, n + 1)
    } else {
        n + 2
    }
}

/// The runs of the unpushed-commit check of `branch` start at record `n` of `h`.
pub open spec fn unpushed_check_calls(h: Seq<CallRecord>, n: int, branch: Seq<char>) -> bool {
    &&& git_call_at(h, n, upstream_args(branch))
    &&& if nonempty_output(h[n].result) is Some {
        sync_detect_calls(h, n + 1, branch)
    } else {
        git_call_at(h, n + 1, ls_remote_args(branch))
    }
}

/// The number of unpushed commits in a sync state.
pub open spec fn unpushed_of(s: SyncState) -> nat {
    match s {
        SyncState::HasUnpushedCommits { count } => count as nat,
        SyncState::Diverged { ahead, .. } => ahead as nat,
        _ => 0,
    }
}

/// Whether the unpushed-commit check starting at record `n` of `h` refuses,
/// and how it reports otherwise.
pub open spec fn unpushed_check_result(h: Seq<CallRecord>, n: int, branch: Seq<char>) -> Result<UnpushedCheck, GwErrorView> {
    if nonempty_output(h[n].result) is Some {
        let s = sync_detect_result(h, n + 1);
        if s is HasUnpushedCommits || s is Diverged {
            Err(GwErrorView::UnpushedCommits(branch, unpushed_of(s)))
        } else {
            Ok(UnpushedCheck::Pushed)
        }
    } else {
        match remote_exists_view(h[n + 1].result, branch) {
            Ok(true) => Ok(UnpushedCheck::RemoteWithoutTracking),
            Ok(false) => Ok(UnpushedCheck::NeverPushed),
            Err(_) => Ok(UnpushedCheck::RemoteUnknown),
        }
    }
}

/// The view of an unpushed-commit check result.
pub open spec fn unpushed_view(r: Result<UnpushedCheck, GwError>) -> Result<UnpushedCheck, GwErrorView> {
    match r {
        Ok(c) => Ok(c),
        Err(e) => Err(e@),
    }
}

/// Refuse to delete a branch whose upstream lacks some of its commits.
pub fn check_unpushed_commits<E: CommandExecutor>(exec: &mut E, branch: &str) -> (r: Result<UnpushedCheck, GwError>)
    ensures
        ({
            let h0 = old(exec).history();
            let h = final(exec).history();
            let n = h0.len() as int;
            &&& extends(h0, h)
            &&& unpushed_check_calls(h, n, branch@)
            &&& h.len() == unpushed_check_end(h, n)
            &&& unpushed_view(r) == unpushed_check_result(h, n, branch@)
        }),
{
    let ghost h0 = exec.history();
    let ghost n = h0.len() as int;
    let tracking = crate::git::query::has_remote_tracking(exec, branch);
    let ghost h1 = exec.history();
    proof {
        assert(extends(h0, h1)) by {
            assert(h1.take(n) =~= h0);
        }
    }
    if tracking {
        let state = SyncState::detect(exec, branch);
        let ghost h2 = exec.history();
        proof {
            lemma_extends(h1, h2);
            assert(h2[n] == h1[n]);
            assert(h2.take(n) =~= h0) by {
                assert(h2.take(h1.len() as int) == h1);
            }
        }
        let state = match state {
            Ok(s) => s,
            Err(e) => {
                return Err(e);
            },
        };
        if state.has_unpushed() {
            let count = state.unpushed_count();
            return Err(GwError::UnpushedCommits(branch.to_string(), count));
        }
        Ok(UnpushedCheck::Pushed)
    } else {
        let remote = crate::git::query::remote_branch_exists(exec, branch);
        proof {
            let h2 = exec.history();
            assert(h2.drop_last() == h1);
            assert(h2[n] == h1[n]);
            assert(h2.take(n) =~= h0);
        }
        match remote {
            Ok(true) => Ok(UnpushedCheck::RemoteWithoutTracking),
            Ok(false) => Ok(UnpushedCheck::NeverPushed),
            Err(_) => Ok(UnpushedCheck::RemoteUnknown),
        }
    }
}

/// What became of deleting the local branch.
#[derive(Debug)]
pub enum LocalDeletion {
    /// Deleted safely (`git branch -d`).
    Deleted,
    /// Not fully merged locally but its pull request merged: force-deleted.
    ForceDeleted,
    /// Force deletion was allowed but failed.
    ForceFailed(GwError),
    /// Not fully merged and force deletion not allowed: kept.
    Kept,
}

/// The record of a local deletion, with its error as a view.
pub enum LocalDeletionView {
    Deleted,
    ForceDeleted,
    ForceFailed(GwErrorView),
    Kept,
}

impl View for LocalDeletion {
    type V = LocalDeletionView;

    open spec fn view(&self) -> LocalDeletionView {
        match self {
            LocalDeletion::Deleted => LocalDeletionView::Deleted,
            LocalDeletion::ForceDeleted => LocalDeletionView::ForceDeleted,
            LocalDeletion::ForceFailed(e) => LocalDeletionView::ForceFailed(e@),
            LocalDeletion::Kept => LocalDeletionView::Kept,
        }
    }
}

/// Delete the local branch safely; when git refuses (not fully merged),
/// force-delete it only if `force_allowed`.
pub fn delete_local_branch<E: CommandExecutor>(
    exec: &mut E,
    deletable_branch: Branch<Deletable>,
    branch_name: &str,
    force_allowed: bool,
) -> (r: LocalDeletion)
    requires
        deletable_branch.name_view() == branch_name@,
    ensures
        ({
            let h0 = old(exec).history();
            let h = final(exec).history();
            let n = h0.len() as int;
            &&& extends(h0, h)
            &&& git_call_at(h, n, seq!["branch"@, "-d"@, branch_name@])
            &&& if run_view(h[n].result) is Ok {
                h.len() == n + 1 && r is Deleted
            } else if !force_allowed {
                h.len() == n + 1 && r is Kept
            } else {
                &&& h.len() == n + 2
                &&& git_call_at(h, n + 1, seq!["branch"@, "-D"@, branch_name@])
                &&& match run_view(h[n + 1].result) {
                    Ok(()) => r is ForceDeleted,
                    Err(e) => r@ == LocalDeletionView::ForceFailed(e),
                }
            }
        }),
{
    let ghost h0 = exec.history();
    let ghost n = h0.len() as int;
    let first = deletable_branch.delete(exec);
    let ghost h1 = exec.history();
    if first.is_ok() {
        assert(exec.history().take(n) =~= h0);
        return LocalDeletion::Deleted;
    }
    if !force_allowed {
        assert(exec.history().take(n) =~= h0);
        return LocalDeletion::Kept;
    }
    let forced = crate::git::mutation::force_delete_branch(exec, branch_name);
    proof {
        let h2 = exec.history();
        assert(h2.drop_last() == h1);
        assert(h2[n] == h1[n]);
        assert(h2.take(n) =~= h0);
    }
    match forced {
        Ok(()) => LocalDeletion::ForceDeleted,
        Err(e) => LocalDeletion::ForceFailed(e),
    }
}

/// What became of the branch on `origin`.
#[derive(Debug)]
pub enum RemoteHandling {
    /// `origin` lacks the branch (`merged`: its pull request was merged, so
    /// GitHub deleted it).
    Gone { merged: bool },
    /// The pull request merged: the remote branch was deleted.
    Deleted,
    /// The pull request merged but deleting the remote branch failed.
    DeleteFailed(GwError),
    /// The pull request is still open: the remote branch stays.
    OpenPr(u64),
    /// The remote branch stays (no pull request, or it was closed).
    StillExists,
}

/// The record of a remote handling, with its error as a view.
pub enum RemoteHandlingView {
    Gone { merged: bool },
    Deleted,
    DeleteFailed(GwErrorView),
    OpenPr(u64),
    StillExists,
}

impl View for RemoteHandling {
    type V = RemoteHandlingView;

    open spec fn view(&self) -> RemoteHandlingView {
        match self {
            RemoteHandling::Gone { merged } => RemoteHandlingView::Gone { merged: *merged },
            RemoteHandling::Deleted => RemoteHandlingView::Deleted,
            RemoteHandling::DeleteFailed(e) => RemoteHandlingView::DeleteFailed(e@),
            RemoteHandling::OpenPr(n) => RemoteHandlingView::OpenPr(*n),
            RemoteHandling::StillExists => RemoteHandlingView::StillExists,
        }
    }
}

/// The view of an optional pull request.
pub open spec fn opt_pr(p: Option<PrInfo>) -> Option<PrInfoView> {
    match p {
        Some(p) => Some(p@),
        None => None,
    }
}

/// What handling the branch on `origin` (records from `n` of `h` on) did,
/// for a branch whose pull request is `pr`, with result `r`: the remote is
/// asked first; the branch is deleted there only when the pull request merged.
pub open spec fn remote_handled(
    h: Seq<CallRecord>,
    n: int,
    branch: Seq<char>,
    pr: Option<PrInfoView>,
    r: RemoteHandlingView,
) -> bool {
    let merged = pr matches Some(p) && p.state is Merged;
    let exists = remote_exists_view(h[n].result, branch) != Ok::<bool, GwErrorView>(false);
    &&& git_call_at(h, n, ls_remote_args(branch))
    &&& (h.len() > n + 1 || r is Deleted || r is DeleteFailed) ==> merged
    &&& if !exists {
        h.len() == n + 1 && r == RemoteHandlingView::Gone { merged }
    } else if merged {
        &&& h.len() == n + 2
        &&& git_call_at(h, n + 1, seq!["push"@, "origin"@, "--delete"@, branch])
        &&& match remote_delete_view(h[n + 1].result) {
            Ok(()) => r is Deleted,
            Err(e) => r == RemoteHandlingView::DeleteFailed(e),
        }
    } else {
        &&& h.len() == n + 1
        &&& match pr {
            Some(p) => if p.state is Open {
                r == RemoteHandlingView::OpenPr(p.number)
            } else {
                r is StillExists
            },
            None => r is StillExists,
        }
    }
}

/// Delete the branch on `origin` only when its pull request merged; a remote
/// that cannot be asked counts as still having the branch.
pub fn handle_remote_branch<E: CommandExecutor>(
    client: &mut GitHubClient<E>,
    branch: &str,
    pr_info: &Option<PrInfo>,
) -> (r: RemoteHandling)
    ensures
        extends(old(client).history(), final(client).history()),
        remote_handled(final(client).history(), old(client).history().len() as int, branch@, opt_pr(*pr_info), r@),
{
    let ghost h0 = client.history();
    let ghost n = h0.len() as int;
    let remote = crate::git::query::remote_branch_exists(client.executor_mut(), branch);
    let ghost h1 = client.history();
    let exists = match remote {
        Ok(false) => false,
        _ => true,
    };
    let merged = match pr_info {
        Some(pr) => pr.state.is_merged(),
        None => false,
    };
    if !exists {
        assert(client.history().take(n) =~= h0);
        return RemoteHandling::Gone { merged };
    }
    if merged {
        let res = client.delete_remote_branch(branch);
        proof {
            let h2 = client.history();
            assert(h2.drop_last() == h1);
            assert(h2[n] == h1[n]);
            assert(h2.take(n) =~= h0);
        }
        return match res {
            Ok(()) => RemoteHandling::Deleted,
            Err(e) => RemoteHandling::DeleteFailed(e),
        };
    }
    assert(client.history().take(n) =~= h0);
    match pr_info {
        Some(pr) => {
            if pr.state.is_open() {
                RemoteHandling::OpenPr(pr.number)
            } else {
                RemoteHandling::StillExists
            }
        },
        None => RemoteHandling::StillExists,
    }
}

/// The state word of a pull request, with the merge method when merged.
pub open spec fn pr_state_label(s: PrStateView) -> Seq<char> {
    match s {
        PrStateView::Open => "OPEN"@,
        PrStateView::Merged { method, .. } => "MERGED ("@ + merge_method_name(method) + ")"@,
        PrStateView::Closed => "CLOSED"@,
    }
}

/// The summary of a pull request that cleanup shows.
pub open spec fn pr_summary_view(pr: PrInfoView) -> Seq<char> {
    "PR #"@ + decimal_view(pr.number as nat) + ": "@ + pr.title + " ["@ + pr_state_label(pr.state) + "]"@
}

/// The summary of a pull request: `PR #<n>: <title> [<STATE>]`.
pub fn display_pr_info(pr: &PrInfo) -> (r: String)
    ensures
        r@ == pr_summary_view(pr@),
{
    let state = match &pr.state {
        PrState::Open => "OPEN".to_string(),
        PrState::Merged { method, .. } => {
            let m = method.to_string();
            cat3("MERGED (", m.as_str(), ")")
        },
        PrState::Closed => "CLOSED".to_string(),
    };
    let n = u64_to_decimal(pr.number);
    let head = cat5("PR #", n.as_str(), ": ", pr.title.as_str(), " [");
    cat3(head.as_str(), state.as_str(), "]")
}

/// What asking GitHub for the branch's pull request found.
#[derive(Debug)]
pub enum PrQuery {
    /// `gh` is not available: no lookup.
    Unavailable,
    Found(PrInfo),
    NotFound,
    /// The lookup failed; cleanup goes on without pull request information.
    Failed(GwError),
}

/// Look up the branch's pull request when `gh` is available; a failed lookup
/// is reported, not fatal.
pub fn query_pr_info<E: CommandExecutor>(client: &mut GitHubClient<E>, branch: &str) -> (r: PrQuery)
    ensures
        ({
            let h0 = old(client).history();
            let h = final(client).history();
            let n = h0.len() as int;
            &&& extends(h0, h)
            &&& crate::commands::sync::gh_version_at(h, n)
            &&& if !crate::github::client::ran_ok(h[n].result) {
                h.len() == n + 1 && r is Unavailable
            } else {
                &&& lookup_calls_at(h, n + 1, branch@)
                &&& h.len() == n + 1 + lookup_runs(h, n + 1)
                &&& match lookup_at(h, n + 1) {
                    Ok(Some(p)) => r matches PrQuery::Found(q) && q@ == p,
                    Ok(None) => r is NotFound,
                    Err(e) => r matches PrQuery::Failed(x) && x@ == e,
                }
            }
        }),
{
    let ghost h0 = client.history();
    let ghost n = h0.len() as int;
    if !client.is_available() {
        assert(client.history().take(n) =~= h0);
        return PrQuery::Unavailable;
    }
    let ghost h1 = client.history();
    let look = client.get_pr_for_branch(branch);
    proof {
        let h2 = client.history();
        assert(h2.take(h1.len() as int) == h1);
        lemma_extends(h1, h2);
        assert(h2[n] == h1[n]);
        assert(h2.take(n) =~= h0);
    }
    match look {
        Ok(Some(p)) => PrQuery::Found(p),
        Ok(None) => PrQuery::NotFound,
        Err(e) => PrQuery::Failed(e),
    }
}

/// The first words of the `git` runs that fetch, pull, switch, delete or push.
pub open spec fn altering_word(w: Seq<char>) -> bool {
    w == "fetch"@ || w == "pull"@ || w == "checkout"@ || w == "branch"@ || w == "push"@
}

/// A `git` run that fetches, pulls, switches, deletes or pushes branches.
pub open spec fn alters_branches(c: CallRecord) -> bool {
    &&& c.program == "git"@
    &&& c.args.len() > 0
    &&& altering_word(c.args[0])
}

/// No record of `h` from `from` up to `to` alters branches.
pub open spec fn alters_nothing(h: Seq<CallRecord>, from: int, to: int) -> bool {
    forall|i: int| from <= i < to ==> !alters_branches(#[trigger] h[i])
}

/// The `git` commands that cleanup runs before its guard only read.
proof fn lemma_read_words()
    ensures
        !altering_word("show-ref"@),
        !altering_word("diff"@),
        !altering_word("ls-files"@),
        !altering_word("config"@),
        !altering_word("cat-file"@),
        "gh"@ != "git"@,
{
    reveal_strlit("gh");
    reveal_strlit("git");
    reveal_strlit("fetch");
    reveal_strlit("pull");
    reveal_strlit("checkout");
    reveal_strlit("branch");
    reveal_strlit("push");
    reveal_strlit("show-ref");
    reveal_strlit("diff");
    reveal_strlit("ls-files");
    reveal_strlit("config");
    reveal_strlit("cat-file");
    assert("show-ref"@[0] != "checkout"@[0]);
    assert("diff"@[0] != "push"@[0]);
    assert("diff"@[0] != "pull"@[0]);
    assert("ls-files"@[0] != "checkout"@[0]);
    assert("config"@[0] != "branch"@[0]);
    assert("cat-file"@[1] != "checkout"@[1]);
    assert("gh"@.len() != "git"@.len());
}

/// The guard's runs only read.
proof fn lemma_guard_reads(h: Seq<CallRecord>, q: int, target: Seq<char>, merged: bool)
    requires
        0 <= q,
        guard_calls_at(h, q, target, merged),
        guard_end(h, q, target, merged) <= h.len(),
    ensures
        alters_nothing(h, q, guard_end(h, q, target, merged)),
{
    lemma_read_words();
    let cands = crate::commands::dependents::candidates_at(h, q, target);
    assert forall|i: int| q <= i < guard_end(h, q, target, merged) implies !alters_branches(#[trigger] h[i]) by {
        if i == q {
            assert(h[i].args[0] == "config"@);
        } else if i < q + 1 + cands.len() {
            let k = i - q - 1;
            assert(git_call_at(h, q + 1 + k, show_ref_args(cands[k])));
            assert(h[i].args == show_ref_args(cands[k]));
            assert(h[i].args[0] == "show-ref"@);
        } else {
            assert(h[i].program == "gh"@);
        }
    }
}

/// The first record after the pull request query whose `gh --version` run is record `m` of `h`.
pub open spec fn pr_query_end(h: Seq<CallRecord>, m: int) -> int {
    if ran_ok(h[m].result) {
        m + 1 + lookup_runs(h, m + 1)
    } else {
        m + 1
    }
}

/// The pull request that the query from record `m` of `h` found.
pub open spec fn pr_query_found(h: Seq<CallRecord>, m: int) -> Option<PrInfoView> {
    if ran_ok(h[m].result) {
        match lookup_at(h, m + 1) {
            Ok(Some(p)) => Some(p),
            _ => None,
        }
    } else {
        None
    }
}

/// How the query from record `m` of `h` failed, if it did.
pub open spec fn pr_query_error(h: Seq<CallRecord>, m: int) -> Option<GwErrorView> {
    if ran_ok(h[m].result) {
        match lookup_at(h, m + 1) {
            Err(e) => Some(e),
            _ => None,
        }
    } else {
        None
    }
}

/// A pull request was found, and it merged.
pub open spec fn found_merged(p: Option<PrInfoView>) -> bool {
    p matches Some(x) && x.state is Merged
}

/// The view of an optional error.
pub open spec fn opt_error(e: Option<GwError>) -> Option<GwErrorView> {
    match e {
        Some(x) => Some(x@),
        None => None,
    }
}

/// What cleanup learns before it touches anything.
#[derive(Debug)]
pub struct CleanupChecks {
    /// The branch exists locally.
    pub exists: bool,
    pub working_dir: WorkingDirState,
    /// `gh` is available (unknown, `false`, when the working tree was dirty).
    pub gh_available: bool,
    /// The branch's pull request, when one was found.
    pub pr_info: Option<PrInfo>,
    /// How looking the pull request up failed, if it did.
    pub pr_error: Option<GwError>,
}

/// The checks of cleaning up `branch` ran from record `n` of `h` and found
/// this: whether the branch exists, the working tree, then (only when it is
/// clean) whether `gh` is available and the branch's pull request, then the
/// guard against stacked branches, which asks GitHub only when that pull
/// request merged.
pub open spec fn checks_ran(
    h: Seq<CallRecord>,
    n: int,
    branch: Seq<char>,
    exists: bool,
    wd: WorkingDirState,
    gh: bool,
    pr: Option<PrInfoView>,
    err: Option<GwErrorView>,
) -> bool {
    &&& git_call_at(h, n, show_ref_args(branch))
    &&& exists == ran_ok(h[n].result)
    &&& working_dir_calls(h, n + 1)
    &&& wd == working_dir_at(h, n + 1)
    &&& if wd is Clean {
        &&& gh_version_at(h, n + 4)
        &&& gh == ran_ok(h[n + 4].result)
        &&& gh ==> lookup_calls_at(h, n + 5, branch)
        &&& pr == pr_query_found(h, n + 4)
        &&& err == pr_query_error(h, n + 4)
        &&& guard_calls_at(h, pr_query_end(h, n + 4), branch, found_merged(pr))
    } else {
        !gh && pr is None && err is None
    }
}

/// The index after the checks of cleaning up `branch` from record `n` of `h`.
pub open spec fn checks_end(h: Seq<CallRecord>, n: int, branch: Seq<char>) -> int {
    if working_dir_at(h, n + 1) is Clean {
        guard_end(h, pr_query_end(h, n + 4), branch, found_merged(pr_query_found(h, n + 4)))
    } else {
        n + 4
    }
}

/// Whether cleanup may go on after its checks: not with a dirty working tree,
/// nor while the guard refuses.
pub open spec fn checks_result(h: Seq<CallRecord>, n: int, branch: Seq<char>) -> Result<(), GwErrorView> {
    if working_dir_at(h, n + 1) is Clean {
        guard_result(h, pr_query_end(h, n + 4), branch, found_merged(pr_query_found(h, n + 4)))
    } else {
        Err(GwErrorView::UncommittedChanges)
    }
}

/// Records added after the checks change neither what they ran nor what they decided.
proof fn lemma_checks_frame(
    h1: Seq<CallRecord>,
    h2: Seq<CallRecord>,
    n: int,
    branch: Seq<char>,
    exists: bool,
    wd: WorkingDirState,
    gh: bool,
    pr: Option<PrInfoView>,
    err: Option<GwErrorView>,
)
    requires
        extends(h1, h2),
        0 <= n,
        checks_ran(h1, n, branch, exists, wd, gh, pr, err),
        checks_end(h1, n, branch) <= h1.len(),
    ensures
        checks_ran(h2, n, branch, exists, wd, gh, pr, err),
        checks_end(h2, n, branch) == checks_end(h1, n, branch),
        checks_result(h2, n, branch) == checks_result(h1, n, branch),
{
    lemma_extends(h1, h2);
    assert(h2[n] == h1[n]);
    assert(h2[n + 1] == h1[n + 1]);
    assert(h2[n + 2] == h1[n + 2]);
    assert(h2[n + 3] == h1[n + 3]);
    if wd is Clean {
        let m = n + 4;
        assert(h2[m] == h1[m]);
        if ran_ok(h1[m].result) {
            assert(h2[m + 1] == h1[m + 1]);
            assert(lookup_runs(h2, m + 1) == lookup_runs(h1, m + 1));
            assert(h2[m + lookup_runs(h1, m + 1)] == h1[m + lookup_runs(h1, m + 1)]);
            if lookup_runs(h1, m + 1) == 2 {
                assert(h2[m + 2] == h1[m + 2]);
            }
        }
        assert(pr_query_end(h2, m) == pr_query_end(h1, m));
        assert(pr_query_found(h2, m) == pr_query_found(h1, m));
        lemma_guard_frame(h1, h2, pr_query_end(h1, m), branch, found_merged(pr));
    }
}

/// Run the checks of cleaning up `branch`, in the order that keeps them
/// harmless: whether it exists, the working tree (a dirty one stops here),
/// its pull request, and the guard against branches stacked on it. None of
/// them fetches, switches, deletes or pushes.
pub fn check_cleanup<E: CommandExecutor>(client: &mut GitHubClient<E>, branch: &str) -> (r: (
    CleanupChecks,
    Result<(), GwError>,
))
    ensures
        ({
            let h0 = old(client).history();
            let h = final(client).history();
            let n = h0.len() as int;
            let c = r.0;
            &&& extends(h0, h)
            &&& checks_ran(
                h,
                n,
                branch@,
                c.exists,
                c.working_dir,
                c.gh_available,
                opt_pr(c.pr_info),
                opt_error(c.pr_error),
            )
            &&& h.len() == checks_end(h, n, branch@)
            &&& unit_view(r.1) == checks_result(h, n, branch@)
            &&& alters_nothing(h, n, h.len() as int)
        }),
{
    let ghost h0 = client.history();
    let ghost n = h0.len() as int;
    proof {
        lemma_read_words();
    }
    let exists = crate::git::query::branch_exists(client.executor_mut(), branch);
    let ghost h1 = client.history();
    proof {
        lemma_ran_git_extends(h0, h1, show_ref_args(branch@));
    }
    let working_dir = WorkingDirState::detect(client.executor_mut());
    let ghost h2 = client.history();
    proof {
        lemma_extends(h1, h2);
        lemma_extends_trans(h0, h1, h2);
        assert(h2[n] == h1[n]);
        assert(h2[n].args[0] == "show-ref"@);
        assert(h2[n + 1].args[0] == "diff"@);
        assert(h2[n + 2].args[0] == "diff"@);
        assert(h2[n + 3].args[0] == "ls-files"@);
    }
    if !working_dir.is_clean() {
        let checks = CleanupChecks { exists, working_dir, gh_available: false, pr_info: None, pr_error: None };
        return (checks, Err(GwError::UncommittedChanges));
    }
    let query = query_pr_info(client, branch);
    let ghost h3 = client.history();
    proof {
        lemma_extends(h2, h3);
        lemma_extends_trans(h0, h2, h3);
    }
    let (gh_available, pr_info, pr_error) = match query {
        PrQuery::Unavailable => (false, None, None),
        PrQuery::Found(p) => (true, Some(p), None),
        PrQuery::NotFound => (true, None, None),
        PrQuery::Failed(e) => (true, None, Some(e)),
    };
    proof {
        let m = n + 4;
        if ran_ok(h3[m].result) && lookup_runs(h3, m + 1) == 2 {
            assert(h3[m + 2].args[0] == "cat-file"@);
        }
        assert(h3.len() == pr_query_end(h3, m));
    }
    let merged = match &pr_info {
        Some(p) => p.state.is_merged(),
        None => false,
    };
    let guard = guard_cleanup(client, branch, merged);
    let ghost h4 = client.history();
    proof {
        let q = h3.len() as int;
        lemma_extends(h3, h4);
        lemma_extends_trans(h0, h3, h4);
        lemma_guard_reads(h4, q, branch@, merged);
        assert(h4[n + 4] == h3[n + 4]);
        if ran_ok(h3[n + 4].result) {
            assert(h4[n + 5] == h3[n + 5]);
            if lookup_runs(h3, n + 5) == 2 {
                assert(h4[n + 6] == h3[n + 6]);
            }
        }
        assert(pr_query_end(h4, n + 4) == q);
        assert(pr_query_found(h4, n + 4) == pr_query_found(h3, n + 4));
        assert forall|i: int| n <= i < h4.len() implies !alters_branches(#[trigger] h4[i]) by {
            if i < q {
                assert(h4[i] == h3[i]);
                if i < n + 4 {
                    assert(h3[i] == h2[i]);
                } else if i == n + 4 || i == n + 5 {
                    assert(h3[i].program == "gh"@);
                } else {
                    assert(h3[i].args[0] == "cat-file"@);
                }
            }
        }
    }
    let checks = CleanupChecks { exists, working_dir, gh_available, pr_info, pr_error };
    (checks, guard)
}

/// A history that is another followed by one `git` run continues it.
proof fn lemma_ran_git_extends(h0: Seq<CallRecord>, h: Seq<CallRecord>, args: Seq<Seq<char>>)
    requires
        ran_git(h0, h, args),
    ensures
        extends(h0, h),
{
    assert(h.take(h0.len() as int) =~= h.drop_last());
}

/// What cleanup did after its checks passed, step by step; a step that did
/// not run is `None` (or `false`).
#[derive(Debug)]
pub struct CleanupSteps {
    pub force: Option<ForceDelete>,
    /// The unpushed-commit check, when it ran and let cleanup go on.
    pub unpushed: Option<UnpushedCheck>,
    /// `origin` was fetched (and pruned).
    pub fetched: bool,
    pub default_remote: Option<String>,
    /// Leaving the branch for the home branch, when cleanup was on it.
    pub home: Option<HomeSwitch>,
    /// The home branch was pulled from `origin`.
    pub pulled: bool,
    pub deletion: Option<LocalDeletion>,
    pub remote: Option<RemoteHandling>,
    pub stashes: Option<usize>,
}

impl CleanupSteps {
    /// No step ran.
    pub fn none() -> (r: Self)
        ensures
            no_steps(r),
    {
        CleanupSteps {
            force: None,
            unpushed: None,
            fetched: false,
            default_remote: None,
            home: None,
            pulled: false,
            deletion: None,
            remote: None,
            stashes: None,
        }
    }
}

/// What cleaning up a branch found and did.
#[derive(Debug)]
pub struct CleanupReport {
    pub checks: CleanupChecks,
    pub steps: CleanupSteps,
}

/// A history continues itself.
proof fn lemma_extends_refl(h: Seq<CallRecord>)
    ensures
        extends(h, h),
{
    assert(h.take(h.len() as int) =~= h);
}

/// How the force-deletion decision for `branch` (whose pull request is `pr`)
/// came about: from the pull request's state, or without one from the
/// `ls-remote` run at record `m` of `h`.
pub open spec fn force_decided(h: Seq<CallRecord>, m: int, branch: Seq<char>, pr: Option<PrInfoView>, f: ForceDelete) -> bool {
    match pr {
        Some(p) => match p.state {
            PrStateView::Merged { method, .. } => f matches ForceDelete::MergedPr(x) && x == method,
            PrStateView::Open => f is OpenPr,
            PrStateView::Closed => f is ClosedPr,
        },
        None => {
            &&& git_call_at(h, m, ls_remote_args(branch))
            &&& match remote_exists_view(h[m].result, branch) {
                Ok(true) => f is RemoteExists,
                Ok(false) => f is NotOnRemote,
                Err(e) => f matches ForceDelete::RemoteUnknown(x) && x@ == e,
            }
        },
    }
}

/// The steps after the checks came in order, each only after the one before
/// it succeeded: the unpushed-commit check only for an existing branch that
/// may not be force-deleted, and before fetching; pulling after fetching;
/// the local deletion exactly for an existing branch, after pulling; the
/// remote after that; and cleanup succeeded exactly when it counted the stashes.
pub open spec fn steps_in_order(s: CleanupSteps, exists: bool, allowed: bool, ok: bool) -> bool {
    &&& s.unpushed is Some ==> exists && !allowed
    &&& s.fetched ==> !(exists && !allowed) || s.unpushed is Some
    &&& s.default_remote is Some ==> s.fetched
    &&& s.pulled ==> s.fetched && s.default_remote is Some
    &&& s.deletion is Some <==> exists && s.pulled
    &&& s.remote is Some ==> s.pulled
    &&& s.stashes is Some <==> ok
    &&& ok ==> s.remote is Some
}

/// No step ran.
pub open spec fn no_steps(s: CleanupSteps) -> bool {
    s.force is None && s.unpushed is None && !s.fetched && s.default_remote is None && s.home is None && !s.pulled
        && s.deletion is None && s.remote is None && s.stashes is None
}

/// After the checks and the force-deletion decision (`allowed`): refuse
/// unpushed commits when force deletion is not allowed, fetch, go home when
/// on the branch, pull the default branch, delete the branch locally, then on
/// `origin` (asking GitHub again right before), and count the stashes. The
/// first step that fails stops cleanup.
fn finish_cleanup<E: CommandExecutor>(
    client: &mut GitHubClient<E>,
    branch: &str,
    deletable: Branch<Deletable>,
    current: &str,
    home_branch: &str,
    exists: bool,
    allowed: bool,
    pr_info: &Option<PrInfo>,
) -> (r: (CleanupSteps, Result<(), GwError>))
    requires
        deletable.name_view() == branch@,
    ensures
        extends(old(client).history(), final(client).history()),
        r.0.force is None,
        steps_in_order(r.0, exists, allowed, r.1 is Ok),
{
    let ghost h0 = client.history();
    proof {
        lemma_extends_refl(h0);
    }
    let mut steps = CleanupSteps::none();
    if exists && !allowed {
        let ghost hp = client.history();
        let checked = check_unpushed_commits(client.executor_mut(), branch);
        proof {
            lemma_extends_trans(h0, hp, client.history());
        }
        match checked {
            Ok(u) => {
                steps.unpushed = Some(u);
            },
            Err(e) => {
                return (steps, Err(e));
            },
        }
    }
    let ghost hp = client.history();
    let fetched = crate::git::mutation::fetch_prune(client.executor_mut());
    proof {
        lemma_ran_git_extends(hp, client.history(), seq!["fetch"@, "--prune"@, "--quiet"@]);
        lemma_extends_trans(h0, hp, client.history());
    }
    if let Err(e) = fetched {
        return (steps, Err(e));
    }
    steps.fetched = true;
    let ghost hp = client.history();
    let remote = crate::git::query::get_default_remote_branch(client.executor_mut());
    proof {
        let h = client.history();
        assert(h.len() >= hp.len());
        lemma_extends_trans(h0, hp, h);
    }
    let default_remote = match remote {
        Ok(d) => d,
        Err(e) => {
            return (steps, Err(e));
        },
    };
    let ghost hp = client.history();
    let name = crate::git::query::default_branch_name(client.executor_mut());
    proof {
        lemma_extends_trans(h0, hp, client.history());
    }
    let default_branch = match name {
        Ok(d) => d,
        Err(e) => {
            steps.default_remote = Some(default_remote);
            return (steps, Err(e));
        },
    };
    if str_eq(current, branch) {
        let ghost hp = client.history();
        let switched = switch_to_home(client.executor_mut(), current, home_branch, default_remote.as_str());
        proof {
            if current@ == home_branch@ {
                lemma_extends_refl(hp);
            }
            lemma_extends_trans(h0, hp, client.history());
        }
        match switched {
            Ok(s) => {
                steps.home = Some(s);
            },
            Err(e) => {
                steps.default_remote = Some(default_remote);
                return (steps, Err(e));
            },
        }
    }
    steps.default_remote = Some(default_remote);
    let ghost hp = client.history();
    let pulled = crate::git::mutation::pull(client.executor_mut(), "origin", default_branch.as_str());
    proof {
        lemma_ran_git_extends(hp, client.history(), seq!["pull"@, "origin"@, default_branch@, "--quiet"@]);
        lemma_extends_trans(h0, hp, client.history());
    }
    if let Err(e) = pulled {
        return (steps, Err(e));
    }
    steps.pulled = true;
    if exists {
        let ghost hp = client.history();
        let deleted = delete_local_branch(client.executor_mut(), deletable, branch, allowed);
        proof {
            lemma_extends_trans(h0, hp, client.history());
        }
        steps.deletion = Some(deleted);
    }
    let ghost hp = client.history();
    let handled = guarded_remote_cleanup(client, branch, pr_info);
    proof {
        lemma_extends_trans(h0, hp, client.history());
    }
    match handled {
        Ok(x) => {
            steps.remote = Some(x);
        },
        Err(e) => {
            return (steps, Err(e));
        },
    }
    let ghost hp = client.history();
    let stashes = crate::git::query::stash_count(client.executor_mut());
    proof {
        lemma_ran_git_extends(hp, client.history(), seq!["stash"@, "list"@]);
        lemma_extends_trans(h0, hp, client.history());
    }
    steps.stashes = Some(stashes);
    (steps, Ok(()))
}

/// Clean up `branch` (`deletable` names it; cleanup runs from `current`
/// toward `home_branch`): run the checks, and only when they pass go on to
/// fetch, switch, pull and delete. Nothing that fetches, pulls, switches,
/// deletes or pushes runs before the checks have passed: a dirty working
/// tree, or a branch still stacked on `branch` (locally, or as an open pull
/// request when its own pull request merged), stops cleanup with no such run.
pub fn run<E: CommandExecutor>(
    client: &mut GitHubClient<E>,
    branch: &str,
    deletable: Branch<Deletable>,
    current: &str,
    home_branch: &str,
) -> (r: (CleanupReport, Result<(), GwError>))
    requires
        deletable.name_view() == branch@,
    ensures
        ({
            let h0 = old(client).history();
            let h = final(client).history();
            let n = h0.len() as int;
            let c = r.0.checks;
            &&& extends(h0, h)
            &&& checks_ran(
                h,
                n,
                branch@,
                c.exists,
                c.working_dir,
                c.gh_available,
                opt_pr(c.pr_info),
                opt_error(c.pr_error),
            )
            &&& checks_end(h, n, branch@) <= h.len()
            &&& match checks_result(h, n, branch@) {
                Err(e) => {
                    &&& h.len() == checks_end(h, n, branch@)
                    &&& r.1 matches Err(x) && x@ == e
                    &&& no_steps(r.0.steps)
                },
                Ok(()) => {
                    &&& r.0.steps.force matches Some(f)
                    &&& force_decided(h, checks_end(h, n, branch@), branch@, opt_pr(c.pr_info), f)
                    &&& steps_in_order(r.0.steps, c.exists, f.allows(), r.1 is Ok)
                },
            }
            &&& forall|i: int|
                n <= i < h.len() && #[trigger] alters_branches(h[i]) ==> {
                    &&& checks_result(h, n, branch@) is Ok
                    &&& checks_end(h, n, branch@) <= i
                }
        }),
{
    let ghost h0 = client.history();
    let ghost n = h0.len() as int;
    let (checks, verdict) = check_cleanup(client, branch);
    let ghost h1 = client.history();
    if let Err(e) = verdict {
        return (CleanupReport { checks, steps: CleanupSteps::none() }, Err(e));
    }
    let force = should_allow_force_delete(client.executor_mut(), &checks.pr_info, branch);
    let ghost hf = client.history();
    proof {
        if checks.pr_info is None {
            lemma_ran_git_extends(h1, hf, ls_remote_args(branch@));
        } else {
            lemma_extends_refl(h1);
        }
    }
    let allowed = force.allowed();
    let (mut steps, outcome) = finish_cleanup(
        client,
        branch,
        deletable,
        current,
        home_branch,
        checks.exists,
        allowed,
        &checks.pr_info,
    );
    steps.force = Some(force);
    proof {
        let h2 = client.history();
        lemma_extends_trans(h1, hf, h2);
        lemma_extends_trans(h0, h1, h2);
        lemma_checks_frame(
            h1,
            h2,
            n,
            branch@,
            checks.exists,
            checks.working_dir,
            checks.gh_available,
            opt_pr(checks.pr_info),
            opt_error(checks.pr_error),
        );
        lemma_extends(h1, h2);
        lemma_extends(hf, h2);
        if checks.pr_info is None {
            assert(h2[h1.len() as int] == hf[h1.len() as int]);
        }
        assert forall|i: int| n <= i < h2.len() && #[trigger] alters_branches(h2[i]) implies {
            &&& checks_result(h2, n, branch@) is Ok
            &&& checks_end(h2, n, branch@) <= i
        } by {
            if i < h1.len() {
                assert(h2[i] == h1[i]);
            }
        }
    }
    (CleanupReport { checks, steps }, outcome)
}

} // verus!
