//! `gw sync`: bring the current branch up to date with its base.
//!
//! A branch sits on its base: the home branch follows `origin/<default>`; a
//! plain branch is rebased onto the default remote branch; a stacked branch is
//! rebased with `--onto` and its recorded fork point as the boundary, so that
//! only its own commits are replayed. A parent may be dropped from the stack
//! only with positive evidence that it landed in the default branch.
//!
//! Carrying a plan out goes through a journal (`PendingSync`) in three
//! phases: rebase, publish, then retarget the pull request and update the
//! stack metadata. Each phase is a function here; the journal is saved
//! between them by the caller.

use vstd::prelude::*;

use crate::error::{GwError, GwErrorView};
use crate::git::query::{ls_remote_args, opt_string_view, remote_absent, remote_found, remote_query_error};
use crate::git::{
    extends, git_call_at, lemma_extends, lemma_extends_trans, ran_git, string_result_view, unit_view,
};
use crate::github::client::{
    lookup_at, lookup_calls_at, lookup_runs, ran_ok, CallRecord, CommandExecutor, GitHubClient,
};
use crate::github::types::{PrInfo, PrInfoView, PrState, PrStateView};
use crate::state::next_action::opt_str_view;
use crate::commands::status::{info_view, success_view, warn_view};
use crate::output::{hints_view, indented_view, info, success, warn, BOLD, RESET};
use crate::text::{cat, cat3, cat5, decimal_view, seq_strip_prefix, str_eq, strings_view, strip_prefix, u64_to_decimal};

verus! {

/// How the branch is to be moved onto its base.
#[derive(Debug, Clone)]
pub struct Plan {
    /// The ref to rebase onto (`origin/main`, `origin/<parent>`, ...).
    pub new_base: String,
    /// The `rebase --onto` boundary: only `boundary..HEAD` is replayed.
    /// `None` means a plain `git rebase <new_base>`.
    pub boundary: Option<String>,
    /// The pull request whose base moves to the default branch afterwards.
    pub retarget_pr: Option<u64>,
    /// Afterwards the branch is no longer stacked: drop the recorded base.
    pub unstack: bool,
    /// Afterwards the branch is still stacked: record the new base tip as
    /// the next boundary.
    pub rerecord_base: bool,
}

/// A plan with texts as character sequences.
pub struct PlanView {
    pub new_base: Seq<char>,
    pub boundary: Option<Seq<char>>,
    pub retarget_pr: Option<u64>,
    pub unstack: bool,
    pub rerecord_base: bool,
}

impl View for Plan {
    type V = PlanView;

    open spec fn view(&self) -> PlanView {
        PlanView {
            new_base: self.new_base@,
            boundary: opt_string_view(self.boundary),
            retarget_pr: self.retarget_pr,
            unstack: self.unstack,
            rerecord_base: self.rerecord_base,
        }
    }
}

/// A copy of a plan.
pub fn copy_plan(p: &Plan) -> (r: Plan)
    ensures
        r@ == p@,
{
    let boundary = match &p.boundary {
        Some(b) => Some(b.clone()),
        None => None,
    };
    Plan {
        new_base: p.new_base.clone(),
        boundary,
        retarget_pr: p.retarget_pr,
        unstack: p.unstack,
        rerecord_base: p.rerecord_base,
    }
}

/// The default branch's name in a default remote branch such as `origin/main`.
pub open spec fn default_branch_of(default_remote: Seq<char>) -> Seq<char> {
    match seq_strip_prefix(default_remote, "origin/"@) {
        Some(b) => b,
        None => default_remote,
    }
}

/// The refusal when a stacked branch has no usable recorded fork point.
pub open spec fn missing_boundary_error(base: Seq<char>) -> GwErrorView {
    GwErrorView::Other(
        "No valid recorded fork point for '"@ + base
            + "'. Refusing to infer it from a moving branch tip; recover the stack metadata before syncing."@,
    )
}

/// The rebase boundary for a branch stacked on `base`: its recorded fork point.
pub open spec fn boundary_view(base: Seq<char>, recorded_base_sha: Option<Seq<char>>) -> Result<Seq<char>, GwErrorView> {
    match recorded_base_sha {
        Some(sha) => Ok(sha),
        None => Err(missing_boundary_error(base)),
    }
}

/// The refusal when a parent's pull request merged into another branch.
pub open spec fn parent_elsewhere_error(number: u64, base: Seq<char>, default_branch: Seq<char>) -> GwErrorView {
    GwErrorView::Other(
        "Parent PR #"@ + decimal_view(number as nat) + " merged into '"@ + base + "', not '"@
            + default_branch
            + "'. Refusing to drop its changes; integrate the parent stack into the default branch and reconcile its base first."@,
    )
}

/// The refusal when a parent's integration cannot be confirmed.
pub open spec fn parent_unconfirmed_error(number: u64, default_remote: Seq<char>) -> GwErrorView {
    GwErrorView::Other(
        "Cannot confirm parent PR #"@ + decimal_view(number as nat) + " is integrated in "@ + default_remote
            + ". Fetch/retry after integration; refusing to discard its commits."@,
    )
}

/// The merge commit whose reachability from the default remote branch
/// decides whether a merged parent landed there; `None` when no check applies.
pub open spec fn integration_commit(pr: PrInfoView, default_remote: Seq<char>) -> Option<Seq<char>> {
    if pr.base_branch != default_branch_of(default_remote) {
        None
    } else {
        match pr.state {
            PrStateView::Merged { merge_commit: Some(sha), .. } => Some(sha),
            _ => None,
        }
    }
}

/// Whether a parent pull request counts as integrated into the default branch,
/// given whether its merge commit is reachable from `default_remote`.
pub open spec fn integration_view(pr: PrInfoView, default_remote: Seq<char>, reachable: bool) -> Result<(), GwErrorView> {
    if pr.base_branch != default_branch_of(default_remote) {
        Err(parent_elsewhere_error(pr.number, pr.base_branch, default_branch_of(default_remote)))
    } else if integration_commit(pr, default_remote) is Some && reachable {
        Ok(())
    } else {
        Err(parent_unconfirmed_error(pr.number, default_remote))
    }
}

/// The arguments of `git merge-base --is-ancestor`.
pub open spec fn merge_base_args(ancestor: Seq<char>, descendant: Seq<char>) -> Seq<Seq<char>> {
    seq!["merge-base"@, "--is-ancestor"@, ancestor, descendant]
}

/// The number of runs the integration check of `pr` makes.
pub open spec fn integration_runs(pr: PrInfoView, default_remote: Seq<char>) -> int {
    if integration_commit(pr, default_remote) is Some {
        1
    } else {
        0
    }
}

/// The integration check of `pr` runs from record `p` of `h` on.
pub open spec fn integration_calls_at(h: Seq<CallRecord>, p: int, pr: PrInfoView, default_remote: Seq<char>) -> bool {
    match integration_commit(pr, default_remote) {
        Some(sha) => git_call_at(h, p, merge_base_args(sha, default_remote)),
        None => true,
    }
}

/// What the integration check of `pr` whose run is record `p` of `h` gives.
pub open spec fn integration_at(h: Seq<CallRecord>, p: int, pr: PrInfoView, default_remote: Seq<char>) -> Result<(), GwErrorView> {
    integration_view(pr, default_remote, integration_commit(pr, default_remote) is Some && ran_ok(h[p].result))
}

/// Record `n` of `h` asks whether `gh` runs.
pub open spec fn gh_version_at(h: Seq<CallRecord>, n: int) -> bool {
    &&& 0 <= n < h.len()
    &&& h[n].program == "gh"@
    &&& h[n].args == seq!["--version"@]
    &&& h[n].dir is None
}

/// The refusal when a recorded parent's pull request was closed unmerged.
pub open spec fn parent_closed_error(base: Seq<char>) -> GwErrorView {
    GwErrorView::Other(
        "Parent '"@ + base + "' was closed without merging; resolve its disposition before syncing."@,
    )
}

/// The index after the parent lookup of a merge check that starts at `n`.
pub open spec fn after_lookup(h: Seq<CallRecord>, n: int) -> int {
    n + 1 + lookup_runs(h, n + 1)
}

/// The index after a merge check of a recorded parent that starts at record `n`.
pub open spec fn merged_check_end(h: Seq<CallRecord>, n: int, default_remote: Seq<char>) -> int {
    if !ran_ok(h[n].result) {
        n + 1
    } else {
        match lookup_at(h, n + 1) {
            Ok(Some(pr)) => if pr.state is Merged {
                after_lookup(h, n) + integration_runs(pr, default_remote)
            } else {
                after_lookup(h, n)
            },
            _ => after_lookup(h, n),
        }
    }
}

/// The runs of a merge check of the parent `base` start at record `n` of `h`.
pub open spec fn merged_check_calls(h: Seq<CallRecord>, n: int, base: Seq<char>, default_remote: Seq<char>) -> bool {
    &&& gh_version_at(h, n)
    &&& ran_ok(h[n].result) ==> {
        &&& lookup_calls_at(h, n + 1, base)
        &&& match lookup_at(h, n + 1) {
            Ok(Some(pr)) => pr.state is Merged ==> integration_calls_at(h, after_lookup(h, n), pr, default_remote),
            _ => true,
        }
    }
}

/// What a merge check of the parent `base` starting at record `n` of `h` gives:
/// `true` only for a merged parent confirmed in the default branch.
pub open spec fn merged_check_result(h: Seq<CallRecord>, n: int, base: Seq<char>, default_remote: Seq<char>) -> Result<bool, GwErrorView> {
    if !ran_ok(h[n].result) {
        Ok(false)
    } else {
        match lookup_at(h, n + 1) {
            Err(e) => Err(e),
            Ok(Some(pr)) => if pr.state is Merged {
                match integration_at(h, after_lookup(h, n), pr, default_remote) {
                    Ok(()) => Ok(true),
                    Err(e) => Err(e),
                }
            } else if pr.state is Closed {
                Err(parent_closed_error(base))
            } else {
                Ok(false)
            },
            Ok(None) => Ok(false),
        }
    }
}

/// The boundary of a branch stacked on `base`: its recorded fork point. A
/// missing one is refused, never guessed from a moving branch tip.
pub fn required_boundary(base: &str, recorded_base_sha: Option<&str>) -> (r: Result<String, GwError>)
    ensures
        string_result_view(r) == boundary_view(base@, opt_str_view(recorded_base_sha)),
{
    match recorded_base_sha {
        Some(sha) => Ok(sha.to_string()),
        None => Err(
            GwError::Other(
                cat3(
                    "No valid recorded fork point for '",
                    base,
                    "'. Refusing to infer it from a moving branch tip; recover the stack metadata before syncing.",
                ),
            ),
        ),
    }
}

/// The default branch's name in a default remote branch.
fn default_branch_name_of(default_remote: &str) -> (r: String)
    ensures
        r@ == default_branch_of(default_remote@),
{
    match strip_prefix(default_remote, "origin/") {
        Some(b) => b,
        None => default_remote.to_string(),
    }
}

/// Decide whether a merged parent landed in the default branch, given
/// whether its merge commit is reachable from `default_remote`.
pub fn check_parent_integrated(pr: &PrInfo, default_remote: &str, reachable: bool) -> (r: Result<(), GwError>)
    ensures
        unit_view(r) == integration_view(pr@, default_remote@, reachable),
{
    let default_branch = default_branch_name_of(default_remote);
    if !str_eq(pr.base_branch.as_str(), default_branch.as_str()) {
        let n = u64_to_decimal(pr.number);
        let head = cat5("Parent PR #", n.as_str(), " merged into '", pr.base_branch.as_str(), "', not '");
        return Err(
            GwError::Other(
                cat3(
                    head.as_str(),
                    default_branch.as_str(),
                    "'. Refusing to drop its changes; integrate the parent stack into the default branch and reconcile its base first.",
                ),
            ),
        );
    }
    let has_commit = match &pr.state {
        PrState::Merged { merge_commit: Some(_), .. } => true,
        _ => false,
    };
    if has_commit && reachable {
        return Ok(());
    }
    let n = u64_to_decimal(pr.number);
    let head = cat3("Cannot confirm parent PR #", n.as_str(), " is integrated in ");
    Err(
        GwError::Other(
            cat3(
                head.as_str(),
                default_remote,
                ". Fetch/retry after integration; refusing to discard its commits.",
            ),
        ),
    )
}

/// A merged parent may only be dropped when it targeted the default branch
/// and its merge commit is reachable from the fetched default remote branch.
pub fn ensure_parent_integrated<E: CommandExecutor>(exec: &mut E, pr: &PrInfo, default_remote: &str) -> (r: Result<(), GwError>)
    ensures
        ({
            let h0 = old(exec).history();
            let h = final(exec).history();
            &&& extends(h0, h)
            &&& h.len() == h0.len() + integration_runs(pr@, default_remote@)
            &&& integration_calls_at(h, h0.len() as int, pr@, default_remote@)
            &&& unit_view(r) == integration_at(h, h0.len() as int, pr@, default_remote@)
        }),
{
    let ghost h0 = exec.history();
    let default_branch = default_branch_name_of(default_remote);
    let on_default = str_eq(pr.base_branch.as_str(), default_branch.as_str());
    let reachable = match &pr.state {
        PrState::Merged { merge_commit: Some(sha), .. } => {
            if on_default {
                let ok = crate::git::query::is_ancestor(exec, sha.as_str(), default_remote);
                proof {
                    assert(exec.history().take(h0.len() as int) =~= h0);
                }
                ok
            } else {
                assert(exec.history().take(h0.len() as int) =~= h0);
                false
            }
        },
        _ => {
            assert(exec.history().take(h0.len() as int) =~= h0);
            false
        },
    };
    check_parent_integrated(pr, default_remote, reachable)
}

/// Whether the recorded parent `base` merged and landed in the default
/// branch. Without `gh` there is no evidence, so `false`; a failed query is
/// an error, never taken for an open parent.
pub fn recorded_base_pr_merged<E: CommandExecutor>(
    client: &mut GitHubClient<E>,
    base: &str,
    default_remote: &str,
) -> (r: Result<bool, GwError>)
    ensures
        ({
            let h0 = old(client).history();
            let h = final(client).history();
            let n = h0.len() as int;
            &&& extends(h0, h)
            &&& merged_check_calls(h, n, base@, default_remote@)
            &&& h.len() == merged_check_end(h, n, default_remote@)
            &&& crate::git::bool_result_view(r) == merged_check_result(h, n, base@, default_remote@)
        }),
{
    let ghost h0 = client.history();
    let ghost n = h0.len() as int;
    if !client.is_available() {
        assert(client.history().take(n) =~= h0);
        return Ok(false);
    }
    let ghost h1 = client.history();
    let look = client.get_pr_for_branch(base);
    let ghost h2 = client.history();
    proof {
        assert(extends(h0, h1)) by {
            assert(h1.take(n) =~= h0);
        }
        assert(extends(h1, h2));
        lemma_extends_trans(h0, h1, h2);
        lemma_extends(h1, h2);
        assert(h2[n] == h1[n]);
    }
    match look {
        Err(e) => Err(e),
        Ok(Some(pr)) => {
            if pr.state.is_merged() {
                let ghost hp = client.history();
                let res = ensure_parent_integrated(client.executor_mut(), &pr, default_remote);
                let ghost h3 = client.history();
                proof {
                    lemma_extends_trans(h0, h2, h3);
                    lemma_extends(h2, h3);
                    assert(h3[n] == h2[n]);
                    assert(h3[n + 1] == h2[n + 1]);
                    if lookup_runs(h2, n + 1) == 2 {
                        assert(h3[n + 2] == h2[n + 2]);
                    }
                }
                match res {
                    Ok(()) => Ok(true),
                    Err(e) => Err(e),
                }
            } else if pr.state.is_closed() {
                Err(
                    GwError::Other(
                        cat3("Parent '", base, "' was closed without merging; resolve its disposition before syncing."),
                    ),
                )
            } else {
                Ok(false)
            }
        },
        Ok(None) => Ok(false),
    }
}

/// A plan that rebases onto the default remote branch with `boundary` and
/// drops the parent from the stack.
pub open spec fn restack_plan(default_remote: Seq<char>, boundary: Seq<char>, retarget_pr: Option<u64>) -> PlanView {
    PlanView { new_base: default_remote, boundary: Some(boundary), retarget_pr, unstack: true, rerecord_base: false }
}

/// A plan that follows a parent still in flight at `base_ref`.
pub open spec fn follow_plan(base_ref: Seq<char>, boundary: Seq<char>, rerecord_base: bool) -> PlanView {
    PlanView { new_base: base_ref, boundary: Some(boundary), retarget_pr: None, unstack: false, rerecord_base }
}

/// A plain rebase onto the default remote branch.
pub open spec fn plain_plan(default_remote: Seq<char>) -> PlanView {
    PlanView { new_base: default_remote, boundary: None, retarget_pr: None, unstack: false, rerecord_base: false }
}

/// `origin/<branch>`.
pub open spec fn origin_ref(branch: Seq<char>) -> Seq<char> {
    "origin/"@ + branch
}

/// The arguments of `git rev-parse --verify --quiet <reference>`.
pub open spec fn verify_args(reference: Seq<char>) -> Seq<Seq<char>> {
    seq!["rev-parse"@, "--verify"@, "--quiet"@, reference]
}

/// The view of an optional plan.
pub open spec fn opt_plan_view(p: Option<Plan>) -> Option<PlanView> {
    match p {
        Some(p) => Some(p@),
        None => None,
    }
}

/// The view of an optional pull request.
pub open spec fn opt_pr_info_view(p: Option<PrInfo>) -> Option<PrInfoView> {
    match p {
        Some(p) => Some(p@),
        None => None,
    }
}

/// The view of a plan result.
pub open spec fn plan_result_view(r: Result<Option<Plan>, GwError>) -> Result<Option<PlanView>, GwErrorView> {
    match r {
        Ok(p) => Ok(opt_plan_view(p)),
        Err(e) => Err(e@),
    }
}

/// The view of a stacked plan result, with the parent's pull request.
pub open spec fn stacked_result_view(r: Result<(Option<Plan>, Option<PrInfo>), GwError>) -> Result<
    (Option<PlanView>, Option<PrInfoView>),
    GwErrorView,
> {
    match r {
        Ok((p, q)) => Ok((opt_plan_view(p), opt_pr_info_view(q))),
        Err(e) => Err(e@),
    }
}

/// The refusal of a plain rebase when the recorded parent is not confirmed integrated.
pub open spec fn retarget_unconfirmed_error() -> GwErrorView {
    GwErrorView::Other(
        "PR targets the default branch but its recorded parent is not confirmed integrated. Refusing a plain rebase."@,
    )
}

/// What the boundary check for a pull request that GitHub retargeted to the
/// default branch gives, after a merge check of `base` from record `n` of `h`.
pub open spec fn retargeted_result(
    h: Seq<CallRecord>,
    n: int,
    base: Seq<char>,
    sha: Option<Seq<char>>,
    default_remote: Seq<char>,
) -> Result<Option<Seq<char>>, GwErrorView> {
    match merged_check_result(h, n, base, default_remote) {
        Err(e) => Err(e),
        Ok(false) => Err(retarget_unconfirmed_error()),
        Ok(true) => match boundary_view(base, sha) {
            Err(e) => Err(e),
            Ok(b) => Ok(Some(b)),
        },
    }
}

/// The view of an optional boundary result.
pub open spec fn opt_string_result_view(r: Result<Option<String>, GwError>) -> Result<Option<Seq<char>>, GwErrorView> {
    match r {
        Ok(o) => Ok(opt_string_view(o)),
        Err(e) => Err(e@),
    }
}

/// For a pull request that GitHub shows targeting the default branch: when a
/// recorded parent exists, it must be confirmed merged into the default
/// branch, and the branch is restacked from its recorded fork point;
/// `None` for an ordinary branch.
pub fn retargeted_boundary<E: CommandExecutor>(
    client: &mut GitHubClient<E>,
    recorded_base: Option<&str>,
    recorded_base_sha: Option<&str>,
    default_remote: &str,
) -> (r: Result<Option<String>, GwError>)
    ensures
        ({
            let h0 = old(client).history();
            let h = final(client).history();
            let n = h0.len() as int;
            match recorded_base {
                None => h == h0 && r matches Ok(None),
                Some(base) => {
                    &&& extends(h0, h)
                    &&& merged_check_calls(h, n, base@, default_remote@)
                    &&& h.len() == merged_check_end(h, n, default_remote@)
                    &&& opt_string_result_view(r) == retargeted_result(
                        h,
                        n,
                        base@,
                        opt_str_view(recorded_base_sha),
                        default_remote@,
                    )
                },
            }
        }),
{
    let base = match recorded_base {
        None => {
            return Ok(None);
        },
        Some(b) => b,
    };
    let merged = recorded_base_pr_merged(client, base, default_remote)?;
    if !merged {
        return Err(
            GwError::Other(
                "PR targets the default branch but its recorded parent is not confirmed integrated. Refusing a plain rebase.".to_string(),
            ),
        );
    }
    let b = required_boundary(base, recorded_base_sha)?;
    Ok(Some(b))
}

/// What following a parent still in flight at `base_ref` gives.
pub open spec fn follow_result(base: Seq<char>, base_ref: Seq<char>, sha: Option<Seq<char>>) -> Result<
    Option<PlanView>,
    GwErrorView,
> {
    match boundary_view(base, sha) {
        Err(e) => Err(e),
        Ok(b) => Ok(Some(follow_plan(base_ref, b, sha is Some))),
    }
}

/// The index after planning for a pull request stacked on a parent whose
/// lookup starts at record `n` of `h`.
pub open spec fn stacked_end(h: Seq<CallRecord>, n: int, default_remote: Seq<char>) -> int {
    let p = n + lookup_runs(h, n);
    match lookup_at(h, n) {
        Err(_) => p,
        Ok(Some(pr)) => if pr.state is Merged {
            p + integration_runs(pr, default_remote)
        } else if pr.state is Closed {
            p
        } else {
            p + 1
        },
        Ok(None) => p + 1,
    }
}

/// The runs of planning for a pull request stacked on `base` start at record `n` of `h`.
pub open spec fn stacked_calls(h: Seq<CallRecord>, n: int, base: Seq<char>, default_remote: Seq<char>) -> bool {
    let p = n + lookup_runs(h, n);
    &&& lookup_calls_at(h, n, base)
    &&& match lookup_at(h, n) {
        Err(_) => true,
        Ok(Some(pr)) => if pr.state is Merged {
            integration_calls_at(h, p, pr, default_remote)
        } else if pr.state is Closed {
            true
        } else {
            git_call_at(h, p, verify_args(origin_ref(base)))
        },
        Ok(None) => git_call_at(h, p, verify_args(origin_ref(base))),
    }
}

/// What planning for the pull request `pr_number` stacked on `base` gives,
/// with the parent's pull request, when its runs start at record `n` of `h`.
pub open spec fn stacked_result(
    h: Seq<CallRecord>,
    n: int,
    base: Seq<char>,
    pr_number: u64,
    default_remote: Seq<char>,
    sha: Option<Seq<char>>,
) -> Result<(Option<PlanView>, Option<PrInfoView>), GwErrorView> {
    let p = n + lookup_runs(h, n);
    match lookup_at(h, n) {
        Err(e) => Err(e),
        Ok(Some(pr)) => if pr.state is Merged {
            match integration_at(h, p, pr, default_remote) {
                Err(e) => Err(e),
                Ok(()) => match boundary_view(base, sha) {
                    Err(e) => Err(e),
                    Ok(b) => Ok((Some(restack_plan(default_remote, b, Some(pr_number))), Some(pr))),
                },
            }
        } else if pr.state is Closed {
            Ok((None, Some(pr)))
        } else if !ran_ok(h[p].result) {
            Ok((None, Some(pr)))
        } else {
            match follow_result(base, origin_ref(base), sha) {
                Err(e) => Err(e),
                Ok(plan) => Ok((plan, Some(pr))),
            }
        },
        Ok(None) => if !ran_ok(h[p].result) {
            Ok((None, None))
        } else {
            match follow_result(base, origin_ref(base), sha) {
                Err(e) => Err(e),
                Ok(plan) => Ok((plan, None)),
            }
        },
    }
}

/// Plan for the pull request `pr_number` that GitHub shows stacked on `base`.
/// A merged parent is dropped only when confirmed in the default branch; a
/// parent still in flight is followed at `origin/<base>`. Either way only the
/// commits after the recorded fork point are replayed. Also gives the
/// parent's pull request, if it has one.
pub fn plan_for_stacked_pr<E: CommandExecutor>(
    client: &mut GitHubClient<E>,
    base: &str,
    pr_number: u64,
    default_remote: &str,
    recorded_base_sha: Option<&str>,
) -> (r: Result<(Option<Plan>, Option<PrInfo>), GwError>)
    ensures
        ({
            let h0 = old(client).history();
            let h = final(client).history();
            let n = h0.len() as int;
            &&& extends(h0, h)
            &&& stacked_calls(h, n, base@, default_remote@)
            &&& h.len() == stacked_end(h, n, default_remote@)
            &&& stacked_result_view(r) == stacked_result(
                h,
                n,
                base@,
                pr_number,
                default_remote@,
                opt_str_view(recorded_base_sha),
            )
        }),
{
    let ghost h0 = client.history();
    let ghost n = h0.len() as int;
    let base_pr = client.get_pr_for_branch(base)?;
    let ghost h1 = client.history();
    proof {
        lemma_extends(h0, h1);
    }
    match base_pr {
        Some(pr) => {
            if pr.state.is_merged() {
                let res = ensure_parent_integrated(client.executor_mut(), &pr, default_remote);
                let ghost h2 = client.history();
                proof {
                    lemma_extends_trans(h0, h1, h2);
                    lemma_extends(h1, h2);
                    assert(h2[n] == h1[n]);
                    if lookup_runs(h1, n) == 2 {
                        assert(h2[n + 1] == h1[n + 1]);
                    }
                }
                res?;
                let b = required_boundary(base, recorded_base_sha)?;
                let plan = Plan {
                    new_base: default_remote.to_string(),
                    boundary: Some(b),
                    retarget_pr: Some(pr_number),
                    unstack: true,
                    rerecord_base: false,
                };
                Ok((Some(plan), Some(pr)))
            } else if pr.state.is_closed() {
                Ok((None, Some(pr)))
            } else {
                let plan = follow_parent(client, base, recorded_base_sha);
                let ghost h2 = client.history();
                proof {
                    lemma_extends(h1, h2);
                    assert(h2[n] == h1[n]);
                    if lookup_runs(h1, n) == 2 {
                        assert(h2[n + 1] == h1[n + 1]);
                    }
                    assert(h2.take(n) =~= h0) by {
                        assert(h2.take(h1.len() as int) == h1);
                    }
                }
                match plan {
                    Err(e) => Err(e),
                    Ok(p) => Ok((p, Some(pr))),
                }
            }
        },
        None => {
            let plan = follow_parent(client, base, recorded_base_sha);
            let ghost h2 = client.history();
            proof {
                lemma_extends(h1, h2);
                assert(h2[n] == h1[n]);
                if lookup_runs(h1, n) == 2 {
                    assert(h2[n + 1] == h1[n + 1]);
                }
                assert(h2.take(n) =~= h0) by {
                    assert(h2.take(h1.len() as int) == h1);
                }
            }
            match plan {
                Err(e) => Err(e),
                Ok(p) => Ok((p, None)),
            }
        },
    }
}

/// Follow a parent still in flight at `origin/<base>`, when that exists.
fn follow_parent<E: CommandExecutor>(
    client: &mut GitHubClient<E>,
    base: &str,
    recorded_base_sha: Option<&str>,
) -> (r: Result<Option<Plan>, GwError>)
    ensures
        ran_git(old(client).history(), final(client).history(), verify_args(origin_ref(base@))),
        plan_result_view(r) == if !ran_ok(final(client).history().last().result) {
            Ok(None)
        } else {
            follow_result(base@, origin_ref(base@), opt_str_view(recorded_base_sha))
        },
{
    let base_ref = cat("origin/", base);
    let exists = crate::git::query::ref_exists(client.executor_mut(), base_ref.as_str());
    if !exists {
        return Ok(None);
    }
    let b = required_boundary(base, recorded_base_sha)?;
    Ok(
        Some(
            Plan {
                new_base: base_ref,
                boundary: Some(b),
                retarget_pr: None,
                unstack: false,
                rerecord_base: recorded_base_sha.is_some(),
            },
        ),
    )
}

/// The index after planning for a branch stacked on a recorded parent
/// (no pull request yet) whose merge check starts at record `n` of `h`.
pub open spec fn recorded_end(h: Seq<CallRecord>, n: int, default_remote: Seq<char>) -> int {
    let m = merged_check_end(h, n, default_remote);
    match merged_check_result(h, n, Seq::empty(), default_remote) {
        Ok(false) => if ran_ok(h[m].result) {
            m + 1
        } else {
            m + 2
        },
        _ => m,
    }
}

/// The runs of planning for a branch stacked on the recorded parent `base`
/// start at record `n` of `h`.
pub open spec fn recorded_calls(h: Seq<CallRecord>, n: int, base: Seq<char>, default_remote: Seq<char>) -> bool {
    let m = merged_check_end(h, n, default_remote);
    &&& merged_check_calls(h, n, base, default_remote)
    &&& merged_check_result(h, n, base, default_remote) == Ok::<bool, GwErrorView>(false) ==> {
        &&& git_call_at(h, m, verify_args(origin_ref(base)))
        &&& !ran_ok(h[m].result) ==> git_call_at(h, m + 1, crate::git::query::show_ref_args(base))
    }
}

/// What planning for a branch stacked on the recorded parent `base` gives,
/// when its runs start at record `n` of `h`.
pub open spec fn recorded_result(
    h: Seq<CallRecord>,
    n: int,
    base: Seq<char>,
    default_remote: Seq<char>,
    sha: Option<Seq<char>>,
) -> Result<Option<PlanView>, GwErrorView> {
    let m = merged_check_end(h, n, default_remote);
    match merged_check_result(h, n, base, default_remote) {
        Err(e) => Err(e),
        Ok(true) => match boundary_view(base, sha) {
            Err(e) => Err(e),
            Ok(b) => Ok(Some(restack_plan(default_remote, b, None))),
        },
        Ok(false) => if ran_ok(h[m].result) {
            follow_result(base, origin_ref(base), sha)
        } else if ran_ok(h[m + 1].result) {
            follow_result(base, base, sha)
        } else {
            Ok(None)
        },
    }
}

/// Plan for a branch stacked on `base` by `gw new --stack` that has no pull
/// request yet: restack onto the default branch once the parent is confirmed
/// merged there; otherwise follow the parent, on `origin` if pushed, else
/// locally; `None` when the parent is gone.
pub fn plan_for_recorded_base<E: CommandExecutor>(
    client: &mut GitHubClient<E>,
    base: &str,
    default_remote: &str,
    recorded_base_sha: Option<&str>,
) -> (r: Result<Option<Plan>, GwError>)
    ensures
        ({
            let h0 = old(client).history();
            let h = final(client).history();
            let n = h0.len() as int;
            &&& extends(h0, h)
            &&& recorded_calls(h, n, base@, default_remote@)
            &&& h.len() == recorded_end(h, n, default_remote@)
            &&& plan_result_view(r) == recorded_result(
                h,
                n,
                base@,
                default_remote@,
                opt_str_view(recorded_base_sha),
            )
        }),
{
    let ghost h0 = client.history();
    let ghost n = h0.len() as int;
    let merged = recorded_base_pr_merged(client, base, default_remote);
    let ghost h1 = client.history();
    proof {
        lemma_merged_check_result_base(h1, n, base@, Seq::empty(), default_remote@);
    }
    let merged = merged?;
    if merged {
        let b = required_boundary(base, recorded_base_sha)?;
        return Ok(
            Some(
                Plan {
                    new_base: default_remote.to_string(),
                    boundary: Some(b),
                    retarget_pr: None,
                    unstack: true,
                    rerecord_base: false,
                },
            ),
        );
    }
    let remote_ref = cat("origin/", base);
    let remote_exists = crate::git::query::ref_exists(client.executor_mut(), remote_ref.as_str());
    let ghost h2 = client.history();
    proof {
        lemma_extends(h1, h2);
        lemma_merged_check_frame(h1, h2, n, base@, default_remote@);
        assert(h2.take(n) =~= h0) by {
            assert(h2.take(h1.len() as int) == h1);
        }
    }
    let base_ref = if remote_exists {
        remote_ref
    } else {
        let local = crate::git::query::branch_exists(client.executor_mut(), base);
        let ghost h3 = client.history();
        proof {
            lemma_extends(h2, h3);
            lemma_merged_check_frame(h2, h3, n, base@, default_remote@);
            assert(h3.take(n) =~= h0) by {
                assert(h3.take(h2.len() as int) == h2);
            }
        }
        if local {
            base.to_string()
        } else {
            return Ok(None);
        }
    };
    let b = required_boundary(base, recorded_base_sha)?;
    Ok(
        Some(
            Plan {
                new_base: base_ref,
                boundary: Some(b),
                retarget_pr: None,
                unstack: false,
                rerecord_base: recorded_base_sha.is_some(),
            },
        ),
    )
}

/// Whether a merge check gives `Ok(false)` does not depend on the parent's name.
proof fn lemma_merged_check_result_base(h: Seq<CallRecord>, n: int, b1: Seq<char>, b2: Seq<char>, d: Seq<char>)
    ensures
        (merged_check_result(h, n, b1, d) == Ok::<bool, GwErrorView>(false)) == (merged_check_result(h, n, b2, d)
            == Ok::<bool, GwErrorView>(false)),
        (merged_check_result(h, n, b1, d) == Ok::<bool, GwErrorView>(true)) == (merged_check_result(h, n, b2, d)
            == Ok::<bool, GwErrorView>(true)),
{
}

/// A merge check that ended inside `h1` reads the same in any continuation `h2`.
proof fn lemma_merged_check_frame(h1: Seq<CallRecord>, h2: Seq<CallRecord>, n: int, base: Seq<char>, d: Seq<char>)
    requires
        extends(h1, h2),
        0 <= n,
        merged_check_end(h1, n, d) <= h1.len(),
        merged_check_calls(h1, n, base, d),
    ensures
        merged_check_end(h2, n, d) == merged_check_end(h1, n, d),
        merged_check_calls(h2, n, base, d),
        merged_check_result(h2, n, base, d) == merged_check_result(h1, n, base, d),
        forall|b: Seq<char>| merged_check_result(h2, n, b, d) == merged_check_result(h1, n, b, d),
{
    lemma_extends(h1, h2);
    assert(h2[n] == h1[n]);
    if ran_ok(h1[n].result) {
        assert(h2[n + 1] == h1[n + 1]);
        if lookup_runs(h1, n + 1) == 2 {
            assert(h2[n + 2] == h1[n + 2]);
        }
        let p = after_lookup(h1, n);
        if p < h1.len() {
            assert(h2[p] == h1[p]);
        }
    }
}

/// The evidence that a parent pull request `pr` landed in the default
/// branch: it targeted the default branch, and the check at record `p` of
/// `h` found its merge commit reachable from the default remote branch.
pub open spec fn confirmed_integrated(h: Seq<CallRecord>, p: int, pr: PrInfoView, default_remote: Seq<char>) -> bool {
    &&& pr.state is Merged
    &&& pr.base_branch == default_branch_of(default_remote)
    &&& integration_commit(pr, default_remote) is Some
    &&& git_call_at(h, p, merge_base_args(integration_commit(pr, default_remote)->0, default_remote))
    &&& ran_ok(h[p].result)
}

/// A merge check of a recorded parent says "merged" only with the evidence
/// that the parent's pull request landed in the default branch.
pub proof fn lemma_merged_check_confirms(h: Seq<CallRecord>, n: int, base: Seq<char>, default_remote: Seq<char>)
    requires
        merged_check_calls(h, n, base, default_remote),
        merged_check_result(h, n, base, default_remote) == Ok::<bool, GwErrorView>(true),
    ensures
        ran_ok(h[n].result),
        lookup_at(h, n + 1) matches Ok(Some(pr)) && confirmed_integrated(h, after_lookup(h, n), pr, default_remote),
{
}

/// Sync drops a parent from a stacked pull request (`unstack`) only
/// when the parent's pull request targeted the default branch and its merge
/// commit is reachable from the fetched default remote branch.
pub proof fn lemma_stacked_unstack_requires_integration(
    h: Seq<CallRecord>,
    n: int,
    base: Seq<char>,
    pr_number: u64,
    default_remote: Seq<char>,
    sha: Option<Seq<char>>,
)
    requires
        stacked_calls(h, n, base, default_remote),
        stacked_result(h, n, base, pr_number, default_remote, sha) matches Ok((Some(plan), _)) && plan.unstack,
    ensures
        lookup_at(h, n) matches Ok(Some(pr)) && confirmed_integrated(h, n + lookup_runs(h, n), pr, default_remote),
{
}

/// For a branch without a pull request, sync drops the recorded parent
/// only when the parent's pull request landed in the default branch.
pub proof fn lemma_recorded_unstack_requires_integration(
    h: Seq<CallRecord>,
    n: int,
    base: Seq<char>,
    default_remote: Seq<char>,
    sha: Option<Seq<char>>,
)
    requires
        recorded_calls(h, n, base, default_remote),
        recorded_result(h, n, base, default_remote, sha) matches Ok(Some(plan)) && plan.unstack,
    ensures
        lookup_at(h, n + 1) matches Ok(Some(pr)) && confirmed_integrated(h, after_lookup(h, n), pr, default_remote),
{
    lemma_merged_check_confirms(h, n, base, default_remote);
}

/// A pull request that GitHub retargeted to the default branch is
/// restacked only when its recorded parent landed in the default branch.
pub proof fn lemma_retargeted_requires_integration(
    h: Seq<CallRecord>,
    n: int,
    base: Seq<char>,
    sha: Option<Seq<char>>,
    default_remote: Seq<char>,
)
    requires
        merged_check_calls(h, n, base, default_remote),
        retargeted_result(h, n, base, sha, default_remote) is Ok,
    ensures
        lookup_at(h, n + 1) matches Ok(Some(pr)) && confirmed_integrated(h, after_lookup(h, n), pr, default_remote),
{
    lemma_merged_check_confirms(h, n, base, default_remote);
}

/// Every plan for a stacked branch replays exactly the commits after the
/// recorded fork point; without a recorded fork point there is no plan.
pub proof fn lemma_stacked_plans_use_recorded_boundary(
    h: Seq<CallRecord>,
    n: int,
    base: Seq<char>,
    pr_number: u64,
    default_remote: Seq<char>,
    sha: Option<Seq<char>>,
)
    ensures
        stacked_result(h, n, base, pr_number, default_remote, sha) matches Ok((Some(plan), _)) ==> sha is Some
            && plan.boundary == sha,
        recorded_result(h, n, base, default_remote, sha) matches Ok(Some(plan)) ==> sha is Some && plan.boundary
            == sha,
        retargeted_result(h, n, base, sha, default_remote) matches Ok(Some(b)) ==> sha == Some(b),
{
}

/// The default branch that `gw sync` plans with: the name after `origin/`
/// in the default remote branch, `main` otherwise.
pub open spec fn sync_default_branch(default_remote: Seq<char>) -> Seq<char> {
    match seq_strip_prefix(default_remote, "origin/"@) {
        Some(b) => b,
        None => "main"@,
    }
}

/// The default branch that `gw sync` plans with.
pub fn sync_default_branch_of(default_remote: &str) -> (r: String)
    ensures
        r@ == sync_default_branch(default_remote@),
{
    match strip_prefix(default_remote, "origin/") {
        Some(b) => b,
        None => "main".to_string(),
    }
}

/// What sync decided: the plan to carry out, if any, and the parent's pull
/// request when one was looked up.
#[derive(Debug, Clone)]
pub struct SyncDecision {
    pub plan: Option<Plan>,
    pub base_pr: Option<PrInfo>,
}

/// The view of a decision result.
pub open spec fn decision_view(r: Result<SyncDecision, GwError>) -> Result<(Option<PlanView>, Option<PrInfoView>), GwErrorView> {
    match r {
        Ok(d) => Ok((opt_plan_view(d.plan), opt_pr_info_view(d.base_pr))),
        Err(e) => Err(e@),
    }
}

/// The refusal when GitHub's base differs from the recorded parent.
pub open spec fn base_differs_error() -> GwErrorView {
    GwErrorView::Other(
        "GitHub PR base differs from the recorded parent. Refusing to use another parent's fork point."@,
    )
}

/// Which way sync plans for a branch with pull request `pr` (if any) and
/// recorded parent `rb` (if any).
pub enum Route {
    /// The pull request is merged or closed: nothing to sync.
    Finished,
    /// The pull request targets the default branch; a recorded parent must be
    /// confirmed integrated.
    Retargeted(Seq<char>),
    /// An ordinary branch: plain rebase onto the default remote branch.
    Plain,
    /// The recorded parent is not the pull request's base.
    Conflict,
    /// The pull request is stacked on the given base.
    Stacked(Seq<char>, u64),
    /// No pull request; stacked on the recorded parent.
    Recorded(Seq<char>),
}

/// The route that sync takes.
pub open spec fn route(pr: Option<PrInfoView>, default_remote: Seq<char>, rb: Option<Seq<char>>) -> Route {
    match pr {
        Some(pr) => if !(pr.state is Open) {
            Route::Finished
        } else if pr.base_branch == sync_default_branch(default_remote) {
            match rb {
                Some(b) => Route::Retargeted(b),
                None => Route::Plain,
            }
        } else if rb is Some && rb->0 != pr.base_branch {
            Route::Conflict
        } else {
            Route::Stacked(pr.base_branch, pr.number)
        },
        None => match rb {
            Some(b) => Route::Recorded(b),
            None => Route::Plain,
        },
    }
}

/// The index after sync's planning runs that start at record `n` of `h`.
pub open spec fn decision_end(h: Seq<CallRecord>, n: int, pr: Option<PrInfoView>, default_remote: Seq<char>, rb: Option<Seq<char>>) -> int {
    match route(pr, default_remote, rb) {
        Route::Retargeted(_) => merged_check_end(h, n, default_remote),
        Route::Stacked(_, _) => stacked_end(h, n, default_remote),
        Route::Recorded(_) => recorded_end(h, n, default_remote),
        _ => n,
    }
}

/// Sync's planning runs start at record `n` of `h`.
pub open spec fn decision_calls(h: Seq<CallRecord>, n: int, pr: Option<PrInfoView>, default_remote: Seq<char>, rb: Option<Seq<char>>) -> bool {
    match route(pr, default_remote, rb) {
        Route::Retargeted(b) => merged_check_calls(h, n, b, default_remote),
        Route::Stacked(base, _) => stacked_calls(h, n, base, default_remote),
        Route::Recorded(b) => recorded_calls(h, n, b, default_remote),
        _ => true,
    }
}

/// What sync decides when its planning runs start at record `n` of `h`.
pub open spec fn decision_result(
    h: Seq<CallRecord>,
    n: int,
    pr: Option<PrInfoView>,
    default_remote: Seq<char>,
    rb: Option<Seq<char>>,
    sha: Option<Seq<char>>,
) -> Result<(Option<PlanView>, Option<PrInfoView>), GwErrorView> {
    match route(pr, default_remote, rb) {
        Route::Finished => Ok((None, None)),
        Route::Retargeted(b) => match retargeted_result(h, n, b, sha, default_remote) {
            Err(e) => Err(e),
            Ok(Some(boundary)) => Ok((Some(restack_plan(default_remote, boundary, None)), None)),
            Ok(None) => Ok((Some(plain_plan(default_remote)), None)),
        },
        Route::Plain => Ok((Some(plain_plan(default_remote)), None)),
        Route::Conflict => Err(base_differs_error()),
        Route::Stacked(base, number) => stacked_result(h, n, base, number, default_remote, sha),
        Route::Recorded(b) => match recorded_result(h, n, b, default_remote, sha) {
            Err(e) => Err(e),
            Ok(plan) => Ok((plan, None)),
        },
    }
}

/// Decide how to sync the current branch, from its pull request (GitHub's
/// base is authoritative once a pull request exists) or, before one exists,
/// from the recorded parent and fork point.
pub fn decide_sync<E: CommandExecutor>(
    client: &mut GitHubClient<E>,
    pr: Option<PrInfo>,
    default_remote: &str,
    recorded_base: Option<String>,
    recorded_base_sha: Option<String>,
) -> (r: Result<SyncDecision, GwError>)
    ensures
        ({
            let h0 = old(client).history();
            let h = final(client).history();
            let n = h0.len() as int;
            let pv = opt_pr_info_view(pr);
            let rb = opt_string_view(recorded_base);
            &&& extends(h0, h)
            &&& decision_calls(h, n, pv, default_remote@, rb)
            &&& h.len() == decision_end(h, n, pv, default_remote@, rb)
            &&& decision_view(r) == decision_result(
                h,
                n,
                pv,
                default_remote@,
                rb,
                opt_string_view(recorded_base_sha),
            )
        }),
{
    let ghost h0 = client.history();
    let sha: Option<&str> = match &recorded_base_sha {
        Some(s) => Some(s.as_str()),
        None => None,
    };
    match pr {
        Some(pr) => {
            if !pr.state.is_open() {
                assert(client.history().take(h0.len() as int) =~= h0);
                return Ok(SyncDecision { plan: None, base_pr: None });
            }
            let default_branch = sync_default_branch_of(default_remote);
            if str_eq(pr.base_branch.as_str(), default_branch.as_str()) {
                let rb: Option<&str> = match &recorded_base {
                    Some(b) => Some(b.as_str()),
                    None => None,
                };
                let boundary = retargeted_boundary(client, rb, sha, default_remote)?;
                let plan = match boundary {
                    Some(b) => Plan {
                        new_base: default_remote.to_string(),
                        boundary: Some(b),
                        retarget_pr: None,
                        unstack: true,
                        rerecord_base: false,
                    },
                    None => Plan {
                        new_base: default_remote.to_string(),
                        boundary: None,
                        retarget_pr: None,
                        unstack: false,
                        rerecord_base: false,
                    },
                };
                assert(client.history().take(h0.len() as int) =~= h0);
                return Ok(SyncDecision { plan: Some(plan), base_pr: None });
            }
            if let Some(b) = &recorded_base {
                if !str_eq(b.as_str(), pr.base_branch.as_str()) {
                    assert(client.history().take(h0.len() as int) =~= h0);
                    return Err(
                        GwError::Other(
                            "GitHub PR base differs from the recorded parent. Refusing to use another parent's fork point.".to_string(),
                        ),
                    );
                }
            }
            let (plan, base_pr) = plan_for_stacked_pr(
                client,
                pr.base_branch.as_str(),
                pr.number,
                default_remote,
                sha,
            )?;
            Ok(SyncDecision { plan, base_pr })
        },
        None => match &recorded_base {
            Some(base) => {
                let plan = plan_for_recorded_base(client, base.as_str(), default_remote, sha)?;
                Ok(SyncDecision { plan, base_pr: None })
            },
            None => {
                assert(client.history().take(h0.len() as int) =~= h0);
                Ok(
                    SyncDecision {
                        plan: Some(
                            Plan {
                                new_base: default_remote.to_string(),
                                boundary: None,
                                retarget_pr: None,
                                unstack: false,
                                rerecord_base: false,
                            },
                        ),
                        base_pr: None,
                    },
                )
            },
        },
    }
}

/// The recorded parent of `current`, as read from record `n` of `h`: kept
/// only when it is neither the default branch nor the branch itself.
pub open spec fn recorded_base_at(h: Seq<CallRecord>, n: int, current: Seq<char>, default_branch: Seq<char>) -> Option<Seq<char>> {
    match crate::git::query::nonempty_output(h[n].result) {
        Some(b) => if b != default_branch && b != current {
            Some(b)
        } else {
            None
        },
        None => None,
    }
}

/// The recorded fork point read from record `n + 1` of `h`, kept only when
/// the check at record `n + 2` found it in the history of `HEAD`.
pub open spec fn recorded_sha_at(h: Seq<CallRecord>, n: int) -> Option<Seq<char>> {
    match crate::git::query::nonempty_output(h[n + 1].result) {
        Some(s) => if ran_ok(h[n + 2].result) {
            Some(s)
        } else {
            None
        },
        None => None,
    }
}

/// Read the recorded parent of `current` and its fork point. The parent is
/// ignored when it names the default branch or the branch itself; the fork
/// point only counts while it is still in the history of `HEAD`.
pub fn read_recorded_base<E: CommandExecutor>(exec: &mut E, current: &str, default_branch: &str) -> (r: (
    Option<String>,
    Option<String>,
))
    ensures
        ({
            let h0 = old(exec).history();
            let h = final(exec).history();
            let n = h0.len() as int;
            let base = recorded_base_at(h, n, current@, default_branch@);
            &&& extends(h0, h)
            &&& git_call_at(h, n, crate::git::query::config_get_args(current@, "gwBase"@))
            &&& opt_string_view(r.0) == base
            &&& if base is None {
                h.len() == n + 1 && r.1 is None
            } else {
                &&& git_call_at(h, n + 1, crate::git::query::config_get_args(current@, "gwBaseSha"@))
                &&& if crate::git::query::nonempty_output(h[n + 1].result) is None {
                    h.len() == n + 2
                } else {
                    h.len() == n + 3 && git_call_at(
                        h,
                        n + 2,
                        merge_base_args(crate::git::query::nonempty_output(h[n + 1].result)->0, "HEAD"@),
                    )
                }
                &&& opt_string_view(r.1) == recorded_sha_at(h, n)
            }
        }),
{
    let ghost h0 = exec.history();
    let ghost n = h0.len() as int;
    let raw = crate::git::query::branch_base(exec, current);
    let ghost h1 = exec.history();
    let base = match raw {
        Some(b) => {
            if !str_eq(b.as_str(), default_branch) && !str_eq(b.as_str(), current) {
                Some(b)
            } else {
                None
            }
        },
        None => None,
    };
    if base.is_none() {
        assert(exec.history().take(n) =~= h0);
        return (base, None);
    }
    let sha = crate::git::query::branch_base_sha(exec, current);
    let ghost h2 = exec.history();
    proof {
        assert(h2.drop_last() == h1);
        assert(h2[n] == h1[n]);
    }
    let sha = match sha {
        Some(s) => {
            let ok = crate::git::query::is_ancestor(exec, s.as_str(), "HEAD");
            proof {
                assert(exec.history().drop_last() == h2);
                assert(exec.history()[n] == h2[n]);
                assert(exec.history()[n + 1] == h2[n + 1]);
            }
            if ok {
                Some(s)
            } else {
                None
            }
        },
        None => None,
    };
    proof {
        assert(exec.history().take(n) =~= h0);
    }
    (base, sha)
}

/// A sync being carried out, saved as a journal before history is rewritten
/// so that an interrupted sync resumes from it instead of re-deciding.
#[derive(Debug, Clone)]
pub struct PendingSync {
    pub branch: String,
    /// The worktree that owns the sync.
    pub worktree: String,
    pub original_head: String,
    /// `HEAD` after the rebase, once it finished.
    pub rebased_head: Option<String>,
    /// The commit that `plan.new_base` named when the sync started.
    pub target_sha: String,
    pub default_branch: String,
    /// Whether the branch is published and must be force-pushed.
    pub publish: bool,
    /// The commit `origin`'s branch pointed at when the sync started.
    pub expected_remote: Option<String>,
    pub publication_finished: bool,
    pub plan: Plan,
}

/// A pending sync with texts as character sequences.
pub struct PendingSyncView {
    pub branch: Seq<char>,
    pub worktree: Seq<char>,
    pub original_head: Seq<char>,
    pub rebased_head: Option<Seq<char>>,
    pub target_sha: Seq<char>,
    pub default_branch: Seq<char>,
    pub publish: bool,
    pub expected_remote: Option<Seq<char>>,
    pub publication_finished: bool,
    pub plan: PlanView,
}

impl View for PendingSync {
    type V = PendingSyncView;

    open spec fn view(&self) -> PendingSyncView {
        PendingSyncView {
            branch: self.branch@,
            worktree: self.worktree@,
            original_head: self.original_head@,
            rebased_head: opt_string_view(self.rebased_head),
            target_sha: self.target_sha@,
            default_branch: self.default_branch@,
            publish: self.publish,
            expected_remote: opt_string_view(self.expected_remote),
            publication_finished: self.publication_finished,
            plan: self.plan@,
        }
    }
}

/// What `remote_branch_tip` gives for an `ls-remote` run.
pub open spec fn tip_view(r: Result<crate::github::client::CommandOutputView, GwErrorView>, branch: Seq<char>) -> Result<
    Option<Seq<char>>,
    GwErrorView,
> {
    if remote_found(r) {
        Ok(Some(crate::text::first_field_view(crate::text::trim_view(r->Ok_0.stdout))))
    } else if remote_absent(r) {
        Ok(None)
    } else {
        Err(remote_query_error(r, branch))
    }
}

/// The number of runs that preparing the journal makes, when they start at record `n` of `h`.
pub open spec fn prepare_end(h: Seq<CallRecord>, n: int, branch: Seq<char>) -> int {
    if tip_view(h[n].result, branch) is Err {
        n + 1
    } else if crate::git::output_view(h[n + 1].result) is Err {
        n + 2
    } else if crate::git::output_view(h[n + 2].result) is Err {
        n + 3
    } else if crate::git::output_view(h[n + 3].result) is Err {
        n + 4
    } else {
        n + 5
    }
}

/// The runs that prepare the journal start at record `n` of `h`.
pub open spec fn prepare_calls(h: Seq<CallRecord>, n: int, new_base: Seq<char>, branch: Seq<char>) -> bool {
    let e = prepare_end(h, n, branch);
    &&& git_call_at(h, n, ls_remote_args(branch))
    &&& n + 1 < e ==> git_call_at(h, n + 1, seq!["rev-parse"@, "--show-toplevel"@])
    &&& n + 2 < e ==> git_call_at(h, n + 2, seq!["rev-parse"@, "HEAD"@])
    &&& n + 3 < e ==> git_call_at(h, n + 3, seq!["rev-parse"@, new_base])
    &&& n + 4 < e ==> git_call_at(h, n + 4, crate::git::query::upstream_args(branch))
}

/// The journal that the runs from record `n` of `h` prepare for `plan`.
pub open spec fn prepare_result(h: Seq<CallRecord>, n: int, plan: PlanView, branch: Seq<char>, default_branch: Seq<char>) -> Result<
    PendingSyncView,
    GwErrorView,
> {
    match tip_view(h[n].result, branch) {
        Err(e) => Err(e),
        Ok(tip) => match crate::git::output_view(h[n + 1].result) {
            Err(e) => Err(e),
            Ok(worktree) => match crate::git::output_view(h[n + 2].result) {
                Err(e) => Err(e),
                Ok(head) => match crate::git::output_view(h[n + 3].result) {
                    Err(e) => Err(e),
                    Ok(target) => Ok(
                        PendingSyncView {
                            branch,
                            worktree,
                            original_head: head,
                            rebased_head: None,
                            target_sha: target,
                            default_branch,
                            publish: crate::git::query::nonempty_output(h[n + 4].result) is Some || tip is Some,
                            expected_remote: tip,
                            publication_finished: false,
                            plan,
                        },
                    ),
                },
            },
        },
    }
}

/// The view of a journal result.
pub open spec fn pending_result_view(r: Result<PendingSync, GwError>) -> Result<PendingSyncView, GwErrorView> {
    match r {
        Ok(p) => Ok(p@),
        Err(e) => Err(e@),
    }
}

/// Freeze what a sync needs before it rewrites history: the remote tip it
/// expects, the owning worktree, the original head and the target commit.
pub fn prepare_pending<E: CommandExecutor>(exec: &mut E, plan: &Plan, current: &str, default_branch: &str) -> (r: Result<
    PendingSync,
    GwError,
>)
    ensures
        ({
            let h0 = old(exec).history();
            let h = final(exec).history();
            let n = h0.len() as int;
            &&& extends(h0, h)
            &&& prepare_calls(h, n, plan@.new_base, current@)
            &&& h.len() == prepare_end(h, n, current@)
            &&& pending_result_view(r) == prepare_result(h, n, plan@, current@, default_branch@)
        }),
{
    let ghost h0 = exec.history();
    let ghost n = h0.len() as int;
    let tip = crate::git::query::remote_branch_tip(exec, current);
    let ghost h1 = exec.history();
    let expected_remote = match tip {
        Ok(t) => t,
        Err(e) => {
            assert(exec.history().take(n) =~= h0);
            return Err(e);
        },
    };
    let wt = crate::git::query::worktree_root(exec);
    let ghost h2 = exec.history();
    proof {
        assert(h2.drop_last() == h1);
        assert(h2[n] == h1[n]);
    }
    let worktree = match wt {
        Ok(w) => w,
        Err(e) => {
            assert(exec.history().take(n) =~= h0);
            return Err(e);
        },
    };
    let hd = crate::git::query::head_commit(exec);
    let ghost h3 = exec.history();
    proof {
        assert(h3.drop_last() == h2);
        assert(h3[n] == h2[n]);
        assert(h3[n + 1] == h2[n + 1]);
    }
    let original_head = match hd {
        Ok(x) => x,
        Err(e) => {
            assert(exec.history().take(n) =~= h0);
            return Err(e);
        },
    };
    let tg = crate::git::query::rev_parse(exec, plan.new_base.as_str());
    let ghost h4 = exec.history();
    proof {
        assert(h4.drop_last() == h3);
        assert(h4[n] == h3[n]);
        assert(h4[n + 1] == h3[n + 1]);
        assert(h4[n + 2] == h3[n + 2]);
    }
    let target_sha = match tg {
        Ok(x) => x,
        Err(e) => {
            assert(exec.history().take(n) =~= h0);
            return Err(e);
        },
    };
    let tracking = crate::git::query::has_remote_tracking(exec, current);
    proof {
        let h5 = exec.history();
        assert(h5.drop_last() == h4);
        assert(h5[n] == h4[n]);
        assert(h5[n + 1] == h4[n + 1]);
        assert(h5[n + 2] == h4[n + 2]);
        assert(h5[n + 3] == h4[n + 3]);
        assert(h5.take(n) =~= h0);
    }
    let publish = tracking || expected_remote.is_some();
    Ok(
        PendingSync {
            branch: current.to_string(),
            worktree,
            original_head,
            rebased_head: None,
            target_sha,
            default_branch: default_branch.to_string(),
            publish,
            expected_remote,
            publication_finished: false,
            plan: copy_plan(plan),
        },
    )
}

/// The refusal to resume a sync that another branch or worktree owns.
pub open spec fn owner_error(p: PendingSyncView) -> GwErrorView {
    GwErrorView::Other(
        "Unfinished sync belongs to '"@ + p.branch + "' in "@ + p.worktree
            + ". Finish/abort any rebase there, then rerun gw sync in that worktree."@,
    )
}

/// The refusal to resume while git's rebase is unfinished.
pub open spec fn rebase_in_progress_error() -> GwErrorView {
    GwErrorView::Other(
        "A rebase is still in progress. Resolve it with git rebase --continue (or --abort), then rerun gw sync."@,
    )
}

/// The refusal when `HEAD` moved after the recorded rebase.
pub open spec fn head_changed_error() -> GwErrorView {
    GwErrorView::Other(
        "HEAD changed after the pending sync's rebase. Restore the recorded rebased head before retrying; refusing to publish unrelated commits."@,
    )
}

/// The refusal when a rebase left `HEAD` short of the recorded target.
pub open spec fn target_unreached_error() -> GwErrorView {
    GwErrorView::Other(
        "Pending rebase has not reached its recorded target. Resolve/abort it before rerunning gw sync."@,
    )
}

/// The rebase that a pending sync runs: `--onto` its boundary when it has one.
pub open spec fn rebase_args(p: PendingSyncView) -> Seq<Seq<char>> {
    match p.plan.boundary {
        Some(b) => seq!["rebase"@, "--onto"@, p.target_sha, b],
        None => seq!["rebase"@, p.target_sha],
    }
}

/// The index after the ownership check of a pending sync that starts at record `n`.
pub open spec fn owner_end(n: int, p: PendingSyncView, current: Seq<char>) -> int {
    if p.branch != current {
        n
    } else {
        n + 1
    }
}

/// Whether the current branch and worktree (read at record `n` of `h`) own the pending sync.
pub open spec fn owner_result(h: Seq<CallRecord>, n: int, p: PendingSyncView, current: Seq<char>) -> Result<(), GwErrorView> {
    if p.branch != current {
        Err(owner_error(p))
    } else {
        match crate::git::output_view(h[n].result) {
            Err(e) => Err(e),
            Ok(wt) => if wt != p.worktree {
                Err(owner_error(p))
            } else {
                Ok(())
            },
        }
    }
}

/// The new `HEAD` read at record `q` of `h`.
pub open spec fn head_at(h: Seq<CallRecord>, q: int) -> Result<Option<Seq<char>>, GwErrorView> {
    match crate::git::output_view(h[q].result) {
        Err(e) => Err(e),
        Ok(x) => Ok(Some(x)),
    }
}

/// Where the run that reads the rebased `HEAD` stands, when the rebase
/// phase's `HEAD` was read at record `k` of `h`; -1 when it is not reached.
pub open spec fn rebased_head_index(h: Seq<CallRecord>, k: int, p: PendingSyncView) -> int {
    let j = k + 1;
    if p.rebased_head is Some {
        -1
    } else if crate::git::output_view(h[k].result)->Ok_0 == p.original_head {
        if ran_ok(h[j].result) {
            j + 1
        } else if crate::git::run_view(h[j + 1].result) is Ok {
            j + 2
        } else {
            -1
        }
    } else if ran_ok(h[j].result) {
        j + 1
    } else {
        -1
    }
}

/// What the rebase phase gives when its runs start at record `n` of `h`:
/// the rebased `HEAD` to record, `None` when it was already recorded.
pub open spec fn rebase_phase_result(
    h: Seq<CallRecord>,
    n: int,
    p: PendingSyncView,
    current: Seq<char>,
    in_progress: bool,
) -> Result<Option<Seq<char>>, GwErrorView> {
    let k = owner_end(n, p, current);
    let j = k + 1;
    match owner_result(h, n, p, current) {
        Err(e) => Err(e),
        Ok(()) => if in_progress {
            Err(rebase_in_progress_error())
        } else {
            match crate::git::output_view(h[k].result) {
                Err(e) => Err(e),
                Ok(head) => match p.rebased_head {
                    Some(expected) => if head != expected {
                        Err(head_changed_error())
                    } else {
                        Ok(None)
                    },
                    None => if head == p.original_head {
                        if ran_ok(h[j].result) {
                            head_at(h, j + 1)
                        } else {
                            match crate::git::run_view(h[j + 1].result) {
                                Err(e) => Err(e),
                                Ok(()) => head_at(h, j + 2),
                            }
                        }
                    } else if !ran_ok(h[j].result) {
                        Err(target_unreached_error())
                    } else {
                        head_at(h, j + 1)
                    },
                },
            }
        },
    }
}

/// The index after the rebase phase's runs that start at record `n` of `h`.
pub open spec fn rebase_phase_end(h: Seq<CallRecord>, n: int, p: PendingSyncView, current: Seq<char>, in_progress: bool) -> int {
    let k = owner_end(n, p, current);
    let j = k + 1;
    if owner_result(h, n, p, current) is Err {
        k
    } else if in_progress {
        k
    } else if crate::git::output_view(h[k].result) is Err || p.rebased_head is Some {
        k + 1
    } else if crate::git::output_view(h[k].result)->Ok_0 == p.original_head {
        if ran_ok(h[j].result) {
            j + 2
        } else if crate::git::run_view(h[j + 1].result) is Err {
            j + 2
        } else {
            j + 3
        }
    } else if !ran_ok(h[j].result) {
        j + 1
    } else {
        j + 2
    }
}

/// The rebase phase's runs start at record `n` of `h`.
pub open spec fn rebase_phase_calls(h: Seq<CallRecord>, n: int, p: PendingSyncView, current: Seq<char>, in_progress: bool) -> bool {
    let k = owner_end(n, p, current);
    let j = k + 1;
    let e = rebase_phase_end(h, n, p, current, in_progress);
    let q = rebased_head_index(h, k, p);
    &&& p.branch == current ==> git_call_at(h, n, seq!["rev-parse"@, "--show-toplevel"@])
    &&& k < e ==> git_call_at(h, k, seq!["rev-parse"@, "HEAD"@])
    &&& j < e ==> git_call_at(h, j, merge_base_args(p.target_sha, "HEAD"@))
    &&& (j + 1 < e && q != j + 1) ==> git_call_at(h, j + 1, rebase_args(p))
    &&& (0 <= q < e) ==> git_call_at(h, q, seq!["rev-parse"@, "HEAD"@])
}

/// The rebase phase of a pending sync: check that this branch and worktree
/// own it and that no git rebase is unfinished (`rebase_in_progress`), then
/// rebase onto the frozen target (with `--onto` the recorded boundary) unless
/// it is already reached, and record the rebased `HEAD`. Gives whether the
/// journal changed and must be saved; an error leaves it unchanged.
pub fn resume_rebase<E: CommandExecutor>(
    exec: &mut E,
    pending: &mut PendingSync,
    current: &str,
    rebase_in_progress: bool,
) -> (r: Result<bool, GwError>)
    ensures
        ({
            let h0 = old(exec).history();
            let h = final(exec).history();
            let n = h0.len() as int;
            let p = old(pending)@;
            &&& extends(h0, h)
            &&& rebase_phase_calls(h, n, p, current@, rebase_in_progress)
            &&& h.len() == rebase_phase_end(h, n, p, current@, rebase_in_progress)
            &&& match rebase_phase_result(h, n, p, current@, rebase_in_progress) {
                Err(e) => r matches Err(x) && x@ == e && final(pending)@ == p,
                Ok(None) => r matches Ok(false) && final(pending)@ == p,
                Ok(Some(head)) => r matches Ok(true) && final(pending)@ == (PendingSyncView {
                    rebased_head: Some(head),
                    ..p
                }),
            }
        }),
{
    let ghost h0 = exec.history();
    let ghost n = h0.len() as int;
    if !str_eq(pending.branch.as_str(), current) {
        assert(exec.history().take(n) =~= h0);
        return Err(owner_failure(pending));
    }
    let wt = crate::git::query::worktree_root(exec);
    let ghost h1 = exec.history();
    let wt = match wt {
        Ok(w) => w,
        Err(e) => {
            assert(exec.history().take(n) =~= h0);
            return Err(e);
        },
    };
    if !str_eq(wt.as_str(), pending.worktree.as_str()) {
        assert(exec.history().take(n) =~= h0);
        return Err(owner_failure(pending));
    }
    if rebase_in_progress {
        assert(exec.history().take(n) =~= h0);
        return Err(
            GwError::Other(
                "A rebase is still in progress. Resolve it with git rebase --continue (or --abort), then rerun gw sync.".to_string(),
            ),
        );
    }
    let hd = crate::git::query::head_commit(exec);
    let ghost h2 = exec.history();
    proof {
        assert(h2.drop_last() == h1);
        assert(h2[n] == h1[n]);
    }
    let head = match hd {
        Ok(x) => x,
        Err(e) => {
            assert(exec.history().take(n) =~= h0);
            return Err(e);
        },
    };
    if let Some(expected) = &pending.rebased_head {
        assert(exec.history().take(n) =~= h0);
        if !str_eq(head.as_str(), expected.as_str()) {
            return Err(
                GwError::Other(
                    "HEAD changed after the pending sync's rebase. Restore the recorded rebased head before retrying; refusing to publish unrelated commits.".to_string(),
                ),
            );
        }
        return Ok(false);
    }
    let reached = crate::git::query::is_ancestor(exec, pending.target_sha.as_str(), "HEAD");
    let ghost h3 = exec.history();
    proof {
        assert(h3.drop_last() == h2);
        assert(h3[n] == h2[n]);
        assert(h3[n + 1] == h2[n + 1]);
    }
    if str_eq(head.as_str(), pending.original_head.as_str()) {
        if !reached {
            let res = match &pending.plan.boundary {
                Some(boundary) => crate::git::mutation::rebase_onto(
                    exec,
                    pending.target_sha.as_str(),
                    boundary.as_str(),
                ),
                None => crate::git::mutation::rebase(exec, pending.target_sha.as_str()),
            };
            proof {
                let h4 = exec.history();
                assert(h4.drop_last() == h3);
                assert(h4[n] == h3[n]);
                assert(h4[n + 1] == h3[n + 1]);
                assert(h4[n + 2] == h3[n + 2]);
            }
            if let Err(e) = res {
                assert(exec.history().take(n) =~= h0);
                return Err(e);
            }
        }
    } else if !reached {
        assert(exec.history().take(n) =~= h0);
        return Err(
            GwError::Other(
                "Pending rebase has not reached its recorded target. Resolve/abort it before rerunning gw sync.".to_string(),
            ),
        );
    }
    let ghost h4 = exec.history();
    let after = crate::git::query::head_commit(exec);
    proof {
        let h5 = exec.history();
        assert(h5.drop_last() == h4);
        assert(h5[n] == h3[n]);
        assert(h5[n + 1] == h3[n + 1]);
        assert(h5[n + 2] == h3[n + 2]);
        if h4.len() > n + 3 {
            assert(h5[n + 3] == h4[n + 3]);
        }
        assert(h5.take(n) =~= h0);
    }
    let after = match after {
        Ok(x) => x,
        Err(e) => {
            return Err(e);
        },
    };
    pending.rebased_head = Some(after);
    Ok(true)
}

/// The refusal to resume a sync that another branch or worktree owns.
fn owner_failure(pending: &PendingSync) -> (e: GwError)
    ensures
        e@ == owner_error(pending@),
{
    let head = cat5(
        "Unfinished sync belongs to '",
        pending.branch.as_str(),
        "' in ",
        pending.worktree.as_str(),
        ". Finish/abort any rebase there, then rerun gw sync in that worktree.",
    );
    GwError::Other(head)
}

/// The two optional texts hold the same value.
fn opt_str_eq(a: &Option<String>, b: &Option<String>) -> (r: bool)
    ensures
        r == (opt_string_view(*a) == opt_string_view(*b)),
{
    match (a, b) {
        (Some(x), Some(y)) => str_eq(x.as_str(), y.as_str()),
        (None, None) => true,
        _ => false,
    }
}

/// The refusal to overwrite a remote branch that moved during the sync.
pub open spec fn remote_changed_error() -> GwErrorView {
    GwErrorView::Other(
        "Remote changed during pending sync. Refusing to overwrite it; preserve the journal and reconcile the remote change first."@,
    )
}

/// The remote tip a sync expects, empty when the branch was not on `origin`.
pub open spec fn expected_or_empty(p: PendingSyncView) -> Seq<char> {
    match p.expected_remote {
        Some(x) => x,
        None => Seq::empty(),
    }
}

/// The push of a pending sync: only over the remote tip it expects.
pub open spec fn publish_push_args(p: PendingSyncView, branch: Seq<char>) -> Seq<Seq<char>> {
    seq!["push"@, crate::git::mutation::lease_arg(branch, expected_or_empty(p)), "origin"@, branch]
}

/// What the publish phase gives when its runs start at record `n` of `h`:
/// whether it pushed.
pub open spec fn publish_result(h: Seq<CallRecord>, n: int, p: PendingSyncView, branch: Seq<char>) -> Result<bool, GwErrorView> {
    if !p.publish {
        Ok(false)
    } else {
        match tip_view(h[n].result, branch) {
            Err(e) => Err(e),
            Ok(tip) => if tip == p.rebased_head {
                Ok(false)
            } else if tip != p.expected_remote {
                Err(remote_changed_error())
            } else {
                match crate::git::run_view(h[n + 1].result) {
                    Err(e) => Err(e),
                    Ok(()) => Ok(true),
                }
            },
        }
    }
}

/// Whether the publish phase whose runs start at record `n` of `h` pushes.
pub open spec fn publish_pushes(h: Seq<CallRecord>, n: int, p: PendingSyncView, branch: Seq<char>) -> bool {
    &&& p.publish
    &&& tip_view(h[n].result, branch) matches Ok(tip) && tip != p.rebased_head && tip == p.expected_remote
}

/// The index after the publish phase's runs that start at record `n` of `h`.
pub open spec fn publish_end(h: Seq<CallRecord>, n: int, p: PendingSyncView, branch: Seq<char>) -> int {
    if !p.publish {
        n
    } else if publish_pushes(h, n, p, branch) {
        n + 2
    } else {
        n + 1
    }
}

/// The publish phase's runs start at record `n` of `h`.
pub open spec fn publish_calls(h: Seq<CallRecord>, n: int, p: PendingSyncView, branch: Seq<char>) -> bool {
    &&& p.publish ==> git_call_at(h, n, ls_remote_args(branch))
    &&& publish_pushes(h, n, p, branch) ==> git_call_at(h, n + 1, publish_push_args(p, branch))
}

/// The publish phase of a pending sync, after its rebase: force-push the
/// rebased branch, but only over the remote tip recorded when the sync
/// started; a remote that already holds the rebased head is left alone.
/// Success marks the publication finished; an error leaves the journal as it was.
pub fn resume_publish<E: CommandExecutor>(exec: &mut E, pending: &mut PendingSync, current: &str) -> (r: Result<bool, GwError>)
    requires
        old(pending)@.rebased_head is Some,
    ensures
        ({
            let h0 = old(exec).history();
            let h = final(exec).history();
            let n = h0.len() as int;
            let p = old(pending)@;
            &&& extends(h0, h)
            &&& publish_calls(h, n, p, current@)
            &&& h.len() == publish_end(h, n, p, current@)
            &&& match publish_result(h, n, p, current@) {
                Err(e) => r matches Err(x) && x@ == e && final(pending)@ == p,
                Ok(pushed) => r == Ok::<bool, GwError>(pushed) && final(pending)@ == (PendingSyncView {
                    publication_finished: true,
                    ..p
                }),
            }
        }),
{
    let ghost h0 = exec.history();
    let ghost n = h0.len() as int;
    let mut pushed = false;
    if pending.publish {
        let tip = crate::git::query::remote_branch_tip(exec, current);
        let ghost h1 = exec.history();
        let tip = match tip {
            Ok(t) => t,
            Err(e) => {
                assert(exec.history().take(n) =~= h0);
                return Err(e);
            },
        };
        if !opt_str_eq(&tip, &pending.rebased_head) {
            if !opt_str_eq(&tip, &pending.expected_remote) {
                assert(exec.history().take(n) =~= h0);
                return Err(
                    GwError::Other(
                        "Remote changed during pending sync. Refusing to overwrite it; preserve the journal and reconcile the remote change first.".to_string(),
                    ),
                );
            }
            proof {
                reveal_strlit("");
            }
            let expected: &str = match &pending.expected_remote {
                Some(x) => x.as_str(),
                None => "",
            };
            let res = crate::git::mutation::push_with_expected_tip(exec, current, expected);
            proof {
                let h2 = exec.history();
                assert(h2.drop_last() == h1);
                assert(h2[n] == h1[n]);
                assert(h2.take(n) =~= h0);
            }
            if let Err(e) = res {
                return Err(e);
            }
            pushed = true;
        } else {
            assert(exec.history().take(n) =~= h0);
        }
    } else {
        assert(exec.history().take(n) =~= h0);
    }
    pending.publication_finished = true;
    Ok(pushed)
}

/// The index after the final phase's runs that start at record `n` of `h`.
pub open spec fn finish_end(h: Seq<CallRecord>, n: int, p: PendingSyncView) -> int {
    let m = if p.plan.retarget_pr is Some {
        n + 1
    } else {
        n
    };
    if p.plan.retarget_pr is Some && crate::github::client::gh_edit_view(h[n].result, "Failed to update PR base: "@) is Err {
        m
    } else if p.plan.unstack {
        if crate::git::mutation::unset_view(h[m].result) is Err {
            m + 1
        } else {
            m + 2
        }
    } else if p.plan.rerecord_base {
        m + 1
    } else {
        m
    }
}

/// The final phase's runs start at record `n` of `h`.
pub open spec fn finish_calls(h: Seq<CallRecord>, n: int, p: PendingSyncView, branch: Seq<char>) -> bool {
    let m = if p.plan.retarget_pr is Some {
        n + 1
    } else {
        n
    };
    let e = finish_end(h, n, p);
    &&& p.plan.retarget_pr matches Some(num) ==> {
        &&& h[n].program == "gh"@
        &&& h[n].args == seq!["pr"@, "edit"@, decimal_view(num as nat), "--base"@, p.default_branch]
        &&& h[n].dir is None
    }
    &&& (m < e && p.plan.unstack) ==> {
        &&& git_call_at(h, m, crate::git::mutation::config_unset_args(branch, "gwBase"@))
        &&& m + 1 < e ==> git_call_at(h, m + 1, crate::git::mutation::config_unset_args(branch, "gwBaseSha"@))
    }
    &&& (m < e && !p.plan.unstack) ==> git_call_at(
        h,
        m,
        crate::git::mutation::config_set_args(branch, "gwBaseSha"@, p.target_sha),
    )
}

/// What the final phase gives when its runs start at record `n` of `h`.
pub open spec fn finish_result(h: Seq<CallRecord>, n: int, p: PendingSyncView) -> Result<(), GwErrorView> {
    let m = if p.plan.retarget_pr is Some {
        n + 1
    } else {
        n
    };
    let retarget = if p.plan.retarget_pr is Some {
        crate::github::client::gh_edit_view(h[n].result, "Failed to update PR base: "@)
    } else {
        Ok(())
    };
    match retarget {
        Err(e) => Err(e),
        Ok(()) => if p.plan.unstack {
            match crate::git::mutation::unset_view(h[m].result) {
                Err(e) => Err(e),
                Ok(()) => crate::git::mutation::unset_view(h[m + 1].result),
            }
        } else if p.plan.rerecord_base {
            crate::git::run_view(h[m].result)
        } else {
            Ok(())
        },
    }
}

/// The final phase of a pending sync, after its publication: move the pull
/// request's base to the default branch if planned, then update the stack
/// metadata (drop the recorded parent, or record the new fork point).
pub fn resume_finish<E: CommandExecutor>(client: &mut GitHubClient<E>, pending: &PendingSync, current: &str) -> (r: Result<(), GwError>)
    requires
        pending@.publication_finished,
    ensures
        ({
            let h0 = old(client).history();
            let h = final(client).history();
            let n = h0.len() as int;
            &&& extends(h0, h)
            &&& finish_calls(h, n, pending@, current@)
            &&& h.len() == finish_end(h, n, pending@)
            &&& unit_view(r) == finish_result(h, n, pending@)
        }),
{
    let ghost h0 = client.history();
    let ghost n = h0.len() as int;
    if let Some(num) = pending.plan.retarget_pr {
        let res = client.update_pr_base(num, pending.default_branch.as_str());
        if let Err(e) = res {
            assert(client.history().take(n) =~= h0);
            return Err(e);
        }
    }
    let ghost h1 = client.history();
    proof {
        assert(extends(h0, h1)) by {
            assert(h1.take(n) =~= h0);
        }
    }
    if pending.plan.unstack {
        let res = crate::git::mutation::unset_branch_base(client.executor_mut(), current);
        proof {
            let h2 = client.history();
            lemma_extends_trans(h0, h1, h2);
            lemma_extends(h1, h2);
            if pending.plan.retarget_pr is Some {
                assert(h2[n] == h1[n]);
            }
        }
        res
    } else if pending.plan.rerecord_base {
        let res = crate::git::mutation::set_branch_base_sha(
            client.executor_mut(),
            current,
            pending.target_sha.as_str(),
        );
        proof {
            let h2 = client.history();
            assert(h2.drop_last() == h1);
            if pending.plan.retarget_pr is Some {
                assert(h2[n] == h1[n]);
            }
            assert(h2.take(n) =~= h0) by {
                assert(h1.take(n) == h0);
            }
        }
        res
    } else {
        Ok(())
    }
}

/// The publish phase force-pushes only over the remote tip recorded when
/// the sync started, never over a remote that moved meanwhile; and only a
/// successful publication marks the journal as published.
pub proof fn lemma_publish_never_overwrites(h: Seq<CallRecord>, n: int, p: PendingSyncView, branch: Seq<char>)
    requires
        publish_calls(h, n, p, branch),
        n + 1 < publish_end(h, n, p, branch),
    ensures
        tip_view(h[n].result, branch) == Ok::<Option<Seq<char>>, GwErrorView>(p.expected_remote),
        git_call_at(h, n + 1, publish_push_args(p, branch)),
        publish_push_args(p, branch)[1] == crate::git::mutation::lease_arg(branch, expected_or_empty(p)),
{
}

/// The refusal to abort a sync outside its worktree.
pub open spec fn abort_elsewhere_error(p: PendingSyncView) -> GwErrorView {
    GwErrorView::Other("Abort sync in its original worktree: "@ + p.worktree)
}

/// The refusal to abort while git's rebase is unfinished.
pub open spec fn abort_rebase_error() -> GwErrorView {
    GwErrorView::Other("Run git rebase --abort first, then gw sync --abort."@)
}

/// The refusal to abort away from the pending branch or with changes.
pub open spec fn abort_checkout_error() -> GwErrorView {
    GwErrorView::Other("Return to the pending branch with a clean working tree before aborting sync."@)
}

/// The refusal to roll back a published sync.
pub open spec fn abort_published_error() -> GwErrorView {
    GwErrorView::Other(
        "Sync was published or the remote changed. Refusing rollback; resume gw sync after reconciling the remote."@,
    )
}

/// The refusal to roll back from an unknown `HEAD`.
pub open spec fn abort_unknown_head_error() -> GwErrorView {
    GwErrorView::Other(
        "HEAD differs from the recorded sync checkpoints. Refusing rollback of unrelated work."@,
    )
}

/// The arguments that move the branch back to the original head.
pub open spec fn rollback_args(p: PendingSyncView) -> Seq<Seq<char>> {
    seq!["reset"@, "--keep"@, p.original_head]
}

/// The stage an abort reaches, when its runs start at record `n` of `h`:
/// 0 worktree, 1 branch, 2 working tree, 3 remote, 4 head, 5 rollback, 6 done.
pub open spec fn abort_stage(h: Seq<CallRecord>, n: int, p: PendingSyncView, in_progress: bool) -> int {
    if crate::git::output_view(h[n].result) is Err || crate::git::output_view(h[n].result)->Ok_0 != p.worktree
        || in_progress {
        0
    } else if crate::git::output_view(h[n + 1].result) is Err || crate::git::output_view(h[n + 1].result)->Ok_0
        != p.branch {
        1
    } else if !(crate::state::working_dir::working_dir_at(h, n + 2) is Clean) {
        2
    } else if p.publication_finished || tip_view(h[n + 5].result, p.branch) != Ok::<
        Option<Seq<char>>,
        GwErrorView,
    >(p.expected_remote) {
        3
    } else if crate::git::output_view(h[n + 6].result) is Err || (crate::git::output_view(h[n + 6].result)->Ok_0
        != p.original_head && p.rebased_head != Some(crate::git::output_view(h[n + 6].result)->Ok_0)) {
        4
    } else if crate::git::output_view(h[n + 6].result)->Ok_0 != p.original_head {
        5
    } else {
        6
    }
}

/// The index after an abort's runs that start at record `n` of `h`.
pub open spec fn abort_end(h: Seq<CallRecord>, n: int, p: PendingSyncView, in_progress: bool) -> int {
    let st = abort_stage(h, n, p, in_progress);
    if st == 0 {
        n + 1
    } else if st == 1 {
        n + 2
    } else if st == 2 {
        n + 5
    } else if st == 3 {
        if p.publication_finished {
            n + 5
        } else {
            n + 6
        }
    } else if st == 4 || st == 6 {
        n + 7
    } else {
        n + 8
    }
}

/// An abort's runs start at record `n` of `h`.
pub open spec fn abort_calls(h: Seq<CallRecord>, n: int, p: PendingSyncView, in_progress: bool) -> bool {
    let e = abort_end(h, n, p, in_progress);
    &&& git_call_at(h, n, seq!["rev-parse"@, "--show-toplevel"@])
    &&& n + 1 < e ==> git_call_at(h, n + 1, seq!["rev-parse"@, "--abbrev-ref"@, "HEAD"@])
    &&& n + 2 < e ==> crate::state::working_dir::working_dir_calls(h, n + 2)
    &&& n + 5 < e ==> git_call_at(h, n + 5, ls_remote_args(p.branch))
    &&& n + 6 < e ==> git_call_at(h, n + 6, seq!["rev-parse"@, "HEAD"@])
    &&& n + 7 < e ==> {
        &&& h[n + 7].program == "git"@
        &&& h[n + 7].args == rollback_args(p)
        &&& h[n + 7].dir == Some("."@)
    }
}

/// What an abort gives when its runs start at record `n` of `h`.
pub open spec fn abort_result(h: Seq<CallRecord>, n: int, p: PendingSyncView, in_progress: bool) -> Result<(), GwErrorView> {
    let st = abort_stage(h, n, p, in_progress);
    if st == 0 {
        match crate::git::output_view(h[n].result) {
            Err(e) => Err(e),
            Ok(_) => if crate::git::output_view(h[n].result)->Ok_0 != p.worktree {
                Err(abort_elsewhere_error(p))
            } else {
                Err(abort_rebase_error())
            },
        }
    } else if st == 1 {
        match crate::git::output_view(h[n + 1].result) {
            Err(e) => Err(e),
            Ok(_) => Err(abort_checkout_error()),
        }
    } else if st == 2 {
        Err(abort_checkout_error())
    } else if st == 3 {
        if p.publication_finished {
            Err(abort_published_error())
        } else {
            match tip_view(h[n + 5].result, p.branch) {
                Err(e) => Err(e),
                Ok(_) => Err(abort_published_error()),
            }
        }
    } else if st == 4 {
        match crate::git::output_view(h[n + 6].result) {
            Err(e) => Err(e),
            Ok(_) => Err(abort_unknown_head_error()),
        }
    } else if st == 5 {
        crate::git::run_view(h[n + 7].result)
    } else {
        Ok(())
    }
}

/// Abort a pending sync before its publication: only in its worktree, with
/// no git rebase unfinished (`rebase_in_progress`), on the pending branch
/// with a clean working tree, and with the remote as the sync found it. A
/// rebased branch is moved back to the original head; the stack metadata
/// stays. On success the caller removes the journal.
pub fn abort_pending_sync<E: CommandExecutor>(exec: &mut E, pending: &PendingSync, rebase_in_progress: bool) -> (r: Result<
    (),
    GwError,
>)
    ensures
        ({
            let h0 = old(exec).history();
            let h = final(exec).history();
            let n = h0.len() as int;
            &&& extends(h0, h)
            &&& abort_calls(h, n, pending@, rebase_in_progress)
            &&& h.len() == abort_end(h, n, pending@, rebase_in_progress)
            &&& unit_view(r) == abort_result(h, n, pending@, rebase_in_progress)
        }),
{
    let ghost h0 = exec.history();
    let ghost n = h0.len() as int;
    let wt = crate::git::query::worktree_root(exec);
    let ghost h1 = exec.history();
    let wt = match wt {
        Ok(w) => w,
        Err(e) => {
            assert(exec.history().take(n) =~= h0);
            return Err(e);
        },
    };
    if !str_eq(wt.as_str(), pending.worktree.as_str()) {
        assert(exec.history().take(n) =~= h0);
        return Err(GwError::Other(cat("Abort sync in its original worktree: ", pending.worktree.as_str())));
    }
    if rebase_in_progress {
        assert(exec.history().take(n) =~= h0);
        return Err(GwError::Other("Run git rebase --abort first, then gw sync --abort.".to_string()));
    }
    let br = crate::git::query::current_branch(exec);
    let ghost h2 = exec.history();
    proof {
        assert(h2.drop_last() == h1);
        assert(h2[n] == h1[n]);
    }
    let br = match br {
        Ok(b) => b,
        Err(e) => {
            assert(exec.history().take(n) =~= h0);
            return Err(e);
        },
    };
    if !str_eq(br.as_str(), pending.branch.as_str()) {
        assert(exec.history().take(n) =~= h0);
        return Err(
            GwError::Other(
                "Return to the pending branch with a clean working tree before aborting sync.".to_string(),
            ),
        );
    }
    let wd = crate::state::working_dir::WorkingDirState::detect(exec);
    let ghost h3 = exec.history();
    proof {
        lemma_extends(h2, h3);
        assert(h3[n] == h2[n]);
        assert(h3[n + 1] == h2[n + 1]);
    }
    if !wd.is_clean() {
        assert(exec.history().take(n) =~= h0) by {
            assert(h3.take(h2.len() as int) == h2);
        }
        return Err(
            GwError::Other(
                "Return to the pending branch with a clean working tree before aborting sync.".to_string(),
            ),
        );
    }
    if pending.publication_finished {
        assert(exec.history().take(n) =~= h0) by {
            assert(h3.take(h2.len() as int) == h2);
        }
        return Err(
            GwError::Other(
                "Sync was published or the remote changed. Refusing rollback; resume gw sync after reconciling the remote.".to_string(),
            ),
        );
    }
    let tip = crate::git::query::remote_branch_tip(exec, pending.branch.as_str());
    let ghost h4 = exec.history();
    proof {
        assert(h4.drop_last() == h3);
        lemma_extends(h3, h4);
        assert(h4.take(n) =~= h0) by {
            assert(h3.take(h2.len() as int) == h2);
            lemma_extends(h2, h3);
        }
        assert(h4[n] == h3[n]);
        assert(h4[n + 1] == h3[n + 1]);
        assert(h4[n + 2] == h3[n + 2]);
        assert(h4[n + 3] == h3[n + 3]);
        assert(h4[n + 4] == h3[n + 4]);
    }
    let tip = match tip {
        Ok(t) => t,
        Err(e) => {
            return Err(e);
        },
    };
    if !opt_str_eq(&tip, &pending.expected_remote) {
        return Err(
            GwError::Other(
                "Sync was published or the remote changed. Refusing rollback; resume gw sync after reconciling the remote.".to_string(),
            ),
        );
    }
    let hd = crate::git::query::head_commit(exec);
    let ghost h5 = exec.history();
    proof {
        assert(h5.drop_last() == h4);
        lemma_extends(h4, h5);
        assert(h5.take(n) =~= h0) by {
            assert(h4.take(n) == h0);
        }
        assert(h5[n] == h4[n]);
        assert(h5[n + 1] == h4[n + 1]);
        assert(h5[n + 2] == h4[n + 2]);
        assert(h5[n + 3] == h4[n + 3]);
        assert(h5[n + 4] == h4[n + 4]);
        assert(h5[n + 5] == h4[n + 5]);
    }
    let head = match hd {
        Ok(x) => x,
        Err(e) => {
            return Err(e);
        },
    };
    if !str_eq(head.as_str(), pending.original_head.as_str()) {
        let known = match &pending.rebased_head {
            Some(rh) => str_eq(rh.as_str(), head.as_str()),
            None => false,
        };
        if !known {
            return Err(
                GwError::Other(
                    "HEAD differs from the recorded sync checkpoints. Refusing rollback of unrelated work.".to_string(),
                ),
            );
        }
        let oh = pending.original_head.as_str();
        let res = crate::git::mutation::git_run_in_dir(exec, ".", &["reset", "--keep", oh]);
        proof {
            let h6 = exec.history();
            assert(args_view_of(seq!["reset", "--keep", oh]) =~= rollback_args(pending@));
            assert(h6.drop_last() == h5);
            lemma_extends(h5, h6);
            assert(h6.take(n) =~= h0) by {
                assert(h5.take(n) == h0);
            }
            assert(h6[n] == h5[n]);
            assert(h6[n + 1] == h5[n + 1]);
            assert(h6[n + 2] == h5[n + 2]);
            assert(h6[n + 3] == h5[n + 3]);
            assert(h6[n + 4] == h5[n + 4]);
            assert(h6[n + 5] == h5[n + 5]);
            assert(h6[n + 6] == h5[n + 6]);
        }
        res?;
    }
    Ok(())
}

/// The views of a list of arguments.
spec fn args_view_of(args: Seq<&str>) -> Seq<Seq<char>> {
    crate::github::client::args_view(args)
}

/// An abort never succeeds once the sync was published or the remote
/// moved, and it only rolls back from the original or the rebased head, to
/// the original head.
pub proof fn lemma_abort_safe(h: Seq<CallRecord>, n: int, p: PendingSyncView, in_progress: bool)
    requires
        abort_calls(h, n, p, in_progress),
        abort_result(h, n, p, in_progress) is Ok,
    ensures
        !p.publication_finished,
        !in_progress,
        tip_view(h[n + 5].result, p.branch) == Ok::<Option<Seq<char>>, GwErrorView>(p.expected_remote),
        abort_stage(h, n, p, in_progress) == 5 ==> p.rebased_head == Some(crate::git::output_view(h[n + 6].result)->Ok_0)
            && h[n + 7].args == rollback_args(p),
{
}

/// A hint that routes to the recovery of an unfinished sync.
pub open spec fn recovery_hint_view(p: PendingSyncView) -> Seq<char> {
    "Unfinished sync on '"@ + p.branch + "' in "@ + p.worktree
        + ". Finish/abort any active rebase there, then run gw sync to resume (or gw sync --abort before publication)."@
}

/// The hint that `gw status` shows while a sync is unfinished.
pub fn pending_recovery_hint(pending: Option<&PendingSync>) -> (r: Option<String>)
    ensures
        match pending {
            Some(p) => r matches Some(t) && t@ == recovery_hint_view(p@),
            None => r is None,
        },
{
    match pending {
        Some(p) => Some(
            cat5(
                "Unfinished sync on '",
                p.branch.as_str(),
                "' in ",
                p.worktree.as_str(),
                ". Finish/abort any active rebase there, then run gw sync to resume (or gw sync --abort before publication).",
            ),
        ),
        None => None,
    }
}

/// What planning a branch stacked on `base` found out about the parent:
/// its pull request merged or was closed, it has none, or `origin` lacks it.
pub open spec fn stacked_notes(base: Seq<char>, plan: Option<PlanView>, base_pr: Option<PrInfoView>) -> Seq<Seq<char>> {
    let closed = base_pr matches Some(bp) && bp.state is Closed;
    let first = match base_pr {
        Some(bp) => {
            let d = decimal_view(bp.number as nat);
            if bp.state is Merged {
                seq![success_view("Base PR #"@ + d + " ("@ + base + ") is merged ✓"@)]
            } else if bp.state is Closed {
                seq![warn_view("Base PR #"@ + d + " ("@ + base + ") was closed without merging."@)] + hints_view(
                    seq!["gh pr reopen "@ + d + "  # or retarget this PR with gh pr edit --base"@],
                )
            } else {
                seq![]
            }
        },
        None => seq![warn_view("No PR found for base branch '"@ + base + "'; following origin/"@ + base + "."@)],
    };
    if plan is None && !closed {
        first.push(warn_view("origin/"@ + base + " does not exist. Nothing to sync."@))
    } else {
        first
    }
}

/// What sync reports of its decision for a branch whose pull request is
/// `pr` (and whose recorded parent is `recorded`): the parent's fate when the
/// pull request is stacked on another branch than the default one; a restack
/// when a recorded parent merged; a parent that no longer exists.
pub open spec fn decision_notes_view(
    pr: Option<PrInfoView>,
    default_branch: Seq<char>,
    recorded: Option<Seq<char>>,
    plan: Option<PlanView>,
    base_pr: Option<PrInfoView>,
) -> Seq<Seq<char>> {
    match pr {
        Some(p) => if !(p.state is Open) {
            seq![]
        } else if p.base_branch != default_branch {
            stacked_notes(p.base_branch, plan, base_pr)
        } else {
            match (recorded, plan) {
                (Some(b), Some(pl)) => if pl.unstack {
                    seq![
                        info_view(
                            "Recorded base '"@ + b + "' merged and the PR now targets the default branch — restacking"@,
                        ),
                    ]
                } else {
                    seq![]
                },
                _ => seq![],
            }
        },
        None => match recorded {
            Some(b) => match plan {
                Some(pl) => if pl.unstack {
                    seq![success_view("Base '"@ + b + "' merged ✓ — restacking onto main"@)]
                } else {
                    seq![]
                },
                None => seq![warn_view("Base branch '"@ + b + "' no longer exists locally or on origin. Nothing to sync."@)],
            },
            None => seq![],
        },
    }
}

/// The report of the parent of a branch stacked on `base`.
fn stacked_report(base: &str, plan: &Option<Plan>, base_pr: &Option<PrInfo>) -> (r: Vec<String>)
    ensures
        strings_view(r@) == stacked_notes(base@, opt_plan_view(*plan), opt_pr_info_view(*base_pr)),
{
    let ghost notes = stacked_notes(base@, opt_plan_view(*plan), opt_pr_info_view(*base_pr));
    let mut v: Vec<String> = Vec::new();
    let closed = match base_pr {
        Some(bp) => bp.state.is_closed(),
        None => false,
    };
    match base_pr {
        Some(bp) => {
            let d = u64_to_decimal(bp.number);
            if bp.state.is_merged() {
                let msg = cat(cat5("Base PR #", d.as_str(), " (", base, ") is merged ").as_str(), "✓");
                v.push(success(msg.as_str()));
                proof {
                    reveal_strlit("Base PR #");
                    reveal_strlit(" (");
                    reveal_strlit(") is merged ");
                    reveal_strlit("✓");
                    reveal_strlit(") is merged ✓");
                    assert(msg@ =~= "Base PR #"@ + d@ + " ("@ + base@ + ") is merged ✓"@);
                }
            } else if closed {
                let msg = cat(cat5("Base PR #", d.as_str(), " (", base, ") was closed without merging").as_str(), ".");
                v.push(warn(msg.as_str()));
                let hint = cat3("gh pr reopen ", d.as_str(), "  # or retarget this PR with gh pr edit --base");
                v.push(String::new());
                v.push(cat3(BOLD, "Next:", RESET));
                v.push(cat("  ", hint.as_str()));
                proof {
                    reveal_strlit("Base PR #");
                    reveal_strlit(" (");
                    reveal_strlit(") was closed without merging");
                    reveal_strlit(".");
                    reveal_strlit(") was closed without merging.");
                    assert(msg@ =~= "Base PR #"@ + d@ + " ("@ + base@ + ") was closed without merging."@);
                    let hv = seq![hint@];
                    assert(indented_view(hv) =~= seq!["  "@ + hint@]);
                    assert(strings_view(v@) =~= seq![warn_view(msg@)] + hints_view(hv));
                }
            }
        },
        None => {
            v.push(warn(cat5("No PR found for base branch '", base, "'; following origin/", base, ".").as_str()));
        },
    }
    if plan.is_none() && !closed {
        let ghost before = strings_view(v@);
        v.push(warn(cat3("origin/", base, " does not exist. Nothing to sync.").as_str()));
        assert(strings_view(v@) =~= before.push(warn_view("origin/"@ + base@ + " does not exist. Nothing to sync."@)));
    }
    assert(strings_view(v@) =~= notes);
    v
}

/// What sync reports of its decision (see `decision_notes_view`).
pub fn decision_notes(
    pr: &Option<PrInfo>,
    default_branch: &str,
    recorded: Option<&str>,
    plan: &Option<Plan>,
    base_pr: &Option<PrInfo>,
) -> (r: Vec<String>)
    ensures
        strings_view(r@) == decision_notes_view(
            opt_pr_info_view(*pr),
            default_branch@,
            opt_str_view(recorded),
            opt_plan_view(*plan),
            opt_pr_info_view(*base_pr),
        ),
{
    let mut v: Vec<String> = Vec::new();
    match pr {
        Some(p) => {
            if !p.state.is_open() {
                return v;
            }
            if !str_eq(p.base_branch.as_str(), default_branch) {
                return stacked_report(p.base_branch.as_str(), plan, base_pr);
            }
            if let (Some(b), Some(pl)) = (recorded, plan) {
                if pl.unstack {
                    v.push(
                        info(
                            cat3(
                                "Recorded base '",
                                b,
                                "' merged and the PR now targets the default branch — restacking",
                            ).as_str(),
                        ),
                    );
                }
            }
        },
        None => {
            if let Some(b) = recorded {
                match plan {
                    Some(pl) => {
                        if pl.unstack {
                            v.push(success(cat3("Base '", b, "' merged ✓ — restacking onto main").as_str()));
                        }
                    },
                    None => {
                        v.push(
                            warn(
                                cat3("Base branch '", b, "' no longer exists locally or on origin. Nothing to sync.").as_str(),
                            ),
                        );
                    },
                }
            }
        },
    }
    v
}

/// A rebase phase that ended inside `h1` reads the same in any continuation `h2`.
proof fn lemma_rebase_phase_frame(
    h1: Seq<CallRecord>,
    h2: Seq<CallRecord>,
    n: int,
    p: PendingSyncView,
    current: Seq<char>,
    in_progress: bool,
)
    requires
        extends(h1, h2),
        0 <= n,
        rebase_phase_end(h1, n, p, current, in_progress) <= h1.len(),
        rebase_phase_calls(h1, n, p, current, in_progress),
    ensures
        rebase_phase_end(h2, n, p, current, in_progress) == rebase_phase_end(h1, n, p, current, in_progress),
        rebase_phase_calls(h2, n, p, current, in_progress),
        rebase_phase_result(h2, n, p, current, in_progress) == rebase_phase_result(h1, n, p, current, in_progress),
{
    lemma_extends(h1, h2);
    let k = owner_end(n, p, current);
    let j = k + 1;
    let e = rebase_phase_end(h1, n, p, current, in_progress);
    if p.branch == current {
        assert(h2[n] == h1[n]);
    }
    if k < e {
        assert(h2[k] == h1[k]);
    }
    if j < e {
        assert(h2[j] == h1[j]);
    }
    if j + 1 < e {
        assert(h2[j + 1] == h1[j + 1]);
    }
    if j + 2 < e {
        assert(h2[j + 2] == h1[j + 2]);
    }
}

/// A publish phase that ended inside `h1` reads the same in any continuation `h2`.
proof fn lemma_publish_frame(h1: Seq<CallRecord>, h2: Seq<CallRecord>, n: int, p: PendingSyncView, branch: Seq<char>)
    requires
        extends(h1, h2),
        0 <= n,
        publish_end(h1, n, p, branch) <= h1.len(),
        publish_calls(h1, n, p, branch),
    ensures
        publish_end(h2, n, p, branch) == publish_end(h1, n, p, branch),
        publish_calls(h2, n, p, branch),
        publish_result(h2, n, p, branch) == publish_result(h1, n, p, branch),
{
    lemma_extends(h1, h2);
    if p.publish {
        assert(h2[n] == h1[n]);
        if publish_pushes(h1, n, p, branch) {
            assert(h2[n + 1] == h1[n + 1]);
        }
    }
}

/// Keeps an unfinished sync between runs (in the program, a file in the
/// common git directory). Nothing is claimed of what a write does: the
/// library only orders the writes.
pub trait JournalStore {
    /// Write `pending` as the unfinished sync.
    fn save(&mut self, pending: &PendingSync) -> Result<(), GwError>;

    /// Remove the unfinished sync.
    fn remove(&mut self) -> Result<(), GwError>;
}

/// One write to the journal: the sync saved (`None`: the journal was
/// removed), how many commands had run by then, and whether it succeeded.
pub struct JournalEntry {
    pub saved: Option<PendingSyncView>,
    pub at: nat,
    pub ok: bool,
}

/// A journal over a store that keeps the record of its writes.
pub struct RecordingJournal<S: JournalStore> {
    store: S,
    entries: Ghost<Seq<JournalEntry>>,
}

impl<S: JournalStore> RecordingJournal<S> {
    /// The writes so far, oldest first.
    pub closed spec fn entries(&self) -> Seq<JournalEntry> {
        self.entries@
    }

    /// A journal over `store` that has written nothing yet.
    pub fn new(store: S) -> (r: Self)
        ensures
            r.entries() == Seq::<JournalEntry>::empty(),
    {
        RecordingJournal { store, entries: Ghost(Seq::empty()) }
    }

    /// Save `pending`, after the commands of `client` so far.
    pub fn save<E: CommandExecutor>(&mut self, client: &GitHubClient<E>, pending: &PendingSync) -> (r: Result<
        (),
        GwError,
    >)
        ensures
            final(self).entries() == old(self).entries().push(
                JournalEntry { saved: Some(pending@), at: client.history().len(), ok: r is Ok },
            ),
    {
        let r = self.store.save(pending);
        self.entries = Ghost(
            self.entries@.push(JournalEntry { saved: Some(pending@), at: client.history().len(), ok: r is Ok }),
        );
        r
    }

    /// Remove the journal, after the commands of `client` so far.
    pub fn remove<E: CommandExecutor>(&mut self, client: &GitHubClient<E>) -> (r: Result<(), GwError>)
        ensures
            final(self).entries() == old(self).entries().push(
                JournalEntry { saved: None, at: client.history().len(), ok: r is Ok },
            ),
    {
        let r = self.store.remove();
        self.entries = Ghost(self.entries@.push(JournalEntry { saved: None, at: client.history().len(), ok: r is Ok }));
        r
    }
}

/// The view of a sync run's result: whether it force-pushed, and whether
/// the branch is published.
pub open spec fn run_view(r: Result<(bool, bool), GwError>) -> Result<(bool, bool), GwErrorView> {
    match r {
        Ok(b) => Ok(b),
        Err(e) => Err(e@),
    }
}

/// What carrying on the pending sync `p` did, with its commands from record
/// `n` of `h` on and its journal writes `ev`: the rebase phase; the rebased
/// sync saved; the publish phase; the published sync saved; the pull request
/// retargeted and the stack metadata updated; the journal removed. Each step
/// runs only when every step before it succeeded, and a failure stops there
/// with the journal kept.
pub open spec fn pending_run(
    h: Seq<CallRecord>,
    n: int,
    p: PendingSyncView,
    current: Seq<char>,
    in_progress: bool,
    ev: Seq<JournalEntry>,
    r: Result<(bool, bool), GwErrorView>,
) -> bool {
    let n1 = rebase_phase_end(h, n, p, current, in_progress);
    &&& rebase_phase_calls(h, n, p, current, in_progress)
    &&& match rebase_phase_result(h, n, p, current, in_progress) {
        Err(e) => h.len() == n1 && ev.len() == 0 && r == Err::<(bool, bool), GwErrorView>(e),
        Ok(head) => {
            let p1 = match head {
                Some(hd) => PendingSyncView { rebased_head: Some(hd), ..p },
                None => p,
            };
            let k: int = if head is Some {
                1
            } else {
                0
            };
            &&& head is Some ==> (ev.len() >= 1 && ev[0].saved == Some(p1) && ev[0].at == n1)
            &&& if head is Some && !ev[0].ok {
                h.len() == n1 && ev.len() == 1 && r is Err
            } else {
                let n2 = publish_end(h, n1, p1, current);
                &&& publish_calls(h, n1, p1, current)
                &&& match publish_result(h, n1, p1, current) {
                    Err(e) => h.len() == n2 && ev.len() == k && r == Err::<(bool, bool), GwErrorView>(e),
                    Ok(pushed) => {
                        let p2 = PendingSyncView { publication_finished: true, ..p1 };
                        &&& ev.len() >= k + 1 && ev[k].saved == Some(p2) && ev[k].at == n2
                        &&& if !ev[k].ok {
                            h.len() == n2 && ev.len() == k + 1 && r is Err
                        } else {
                            &&& finish_calls(h, n2, p2, current)
                            &&& h.len() == finish_end(h, n2, p2)
                            &&& match finish_result(h, n2, p2) {
                                Err(e) => ev.len() == k + 1 && r == Err::<(bool, bool), GwErrorView>(e),
                                Ok(()) => {
                                    &&& ev.len() == k + 2
                                    &&& ev[k + 1].saved is None
                                    &&& ev[k + 1].at == h.len()
                                    &&& (ev[k + 1].ok ==> r == Ok::<(bool, bool), GwErrorView>((pushed, p.publish)))
                                    &&& (!ev[k + 1].ok ==> r is Err)
                                },
                            }
                        }
                    },
                }
            }
        },
    }
}

/// Carry the pending sync on: rebase (and save the rebased sync), publish
/// (and save the published sync), retarget the pull request and update the
/// stack metadata, then remove the journal. Gives whether it force-pushed
/// and whether the branch is published.
pub fn run_pending_sync<E: CommandExecutor, S: JournalStore>(
    client: &mut GitHubClient<E>,
    journal: &mut RecordingJournal<S>,
    pending: PendingSync,
    current: &str,
    rebase_in_progress: bool,
) -> (r: Result<(bool, bool), GwError>)
    ensures
        extends(old(client).history(), final(client).history()),
        final(journal).entries().take(old(journal).entries().len() as int) == old(journal).entries(),
        final(journal).entries().len() >= old(journal).entries().len(),
        pending_run(
            final(client).history(),
            old(client).history().len() as int,
            pending@,
            current@,
            rebase_in_progress,
            final(journal).entries().skip(old(journal).entries().len() as int),
            run_view(r),
        ),
{
    let ghost h0 = client.history();
    let ghost n = h0.len() as int;
    let ghost p0 = pending@;
    let ghost ev0 = journal.entries();
    let mut pending = pending;
    let rebased = resume_rebase(client.executor_mut(), &mut pending, current, rebase_in_progress);
    let ghost h1 = client.history();
    let ghost p1 = pending@;
    let ghost k: int = if rebased matches Ok(true) { 1 } else { 0 };
    match rebased {
        Err(e) => {
            proof {
                assert(journal.entries().skip(ev0.len() as int) =~= Seq::<JournalEntry>::empty());
                assert(journal.entries().take(ev0.len() as int) =~= ev0);
            }
            return Err(e);
        },
        Ok(true) => {
            let saved = journal.save(client, &pending);
            if let Err(e) = saved {
                proof {
                    assert(journal.entries().skip(ev0.len() as int) =~= seq![journal.entries().last()]);
                    assert(journal.entries().take(ev0.len() as int) =~= ev0);
                }
                return Err(e);
            }
        },
        Ok(false) => {},
    }
    let ghost ev1 = journal.entries();
    let published = resume_publish(client.executor_mut(), &mut pending, current);
    let ghost h2 = client.history();
    let ghost p2 = pending@;
    proof {
        lemma_extends_trans(h0, h1, h2);
        lemma_rebase_phase_frame(h1, h2, n, p0, current@, rebase_in_progress);
    }
    let pushed = match published {
        Err(e) => {
            proof {
                assert(journal.entries().skip(ev0.len() as int) =~= ev1.skip(ev0.len() as int));
                assert(journal.entries().take(ev0.len() as int) =~= ev0);
            }
            return Err(e);
        },
        Ok(b) => b,
    };
    let saved = journal.save(client, &pending);
    let ghost ev2 = journal.entries();
    if let Err(e) = saved {
        proof {
            assert(journal.entries().take(ev0.len() as int) =~= ev0);
            assert(journal.entries().skip(ev0.len() as int) =~= ev1.skip(ev0.len() as int).push(ev2.last()));
        }
        return Err(e);
    }
    let finished = resume_finish(client, &pending, current);
    let ghost h3 = client.history();
    proof {
        lemma_extends_trans(h0, h2, h3);
        lemma_extends_trans(h1, h2, h3);
        lemma_rebase_phase_frame(h1, h3, n, p0, current@, rebase_in_progress);
        lemma_publish_frame(h2, h3, h1.len() as int, p1, current@);
        assert(journal.entries().take(ev0.len() as int) =~= ev0);
    }
    if let Err(e) = finished {
        proof {
            assert(journal.entries().skip(ev0.len() as int) =~= ev1.skip(ev0.len() as int).push(ev2.last()));
        }
        return Err(e);
    }
    let removed = journal.remove(client);
    proof {
        assert(journal.entries().take(ev0.len() as int) =~= ev0);
        assert(journal.entries().skip(ev0.len() as int) =~= ev1.skip(ev0.len() as int).push(ev2.last()).push(
            journal.entries().last(),
        ));
    }
    match removed {
        Err(e) => Err(e),
        Ok(()) => Ok((pushed, pending.publish)),
    }
}

/// The journal goes last: it is removed only by the last write, after every
/// command ran and after a successful save of the published sync; it is
/// removed successfully exactly when the whole sync succeeded, and a failed
/// step leaves it in place.
pub proof fn lemma_journal_removed_last(
    h: Seq<CallRecord>,
    n: int,
    p: PendingSyncView,
    current: Seq<char>,
    in_progress: bool,
    ev: Seq<JournalEntry>,
    r: Result<(bool, bool), GwErrorView>,
)
    requires
        pending_run(h, n, p, current, in_progress, ev, r),
    ensures
        forall|i: int|
            0 <= i < ev.len() && (#[trigger] ev[i]).saved is None ==> {
                &&& i == ev.len() - 1
                &&& ev[i].at == h.len()
                &&& i >= 1
                &&& ev[i - 1].ok
                &&& ev[i - 1].saved matches Some(q) && q.publication_finished
            },
        (exists|i: int| 0 <= i < ev.len() && (#[trigger] ev[i]).saved is None && ev[i].ok) <==> r is Ok,
{
    if r is Ok {
        assert(ev[ev.len() - 1].saved is None && ev[ev.len() - 1].ok);
    }
}

/// A preparation that ended inside `h1` reads the same in any continuation `h2`.
proof fn lemma_prepare_frame(
    h1: Seq<CallRecord>,
    h2: Seq<CallRecord>,
    n: int,
    plan: PlanView,
    branch: Seq<char>,
    default_branch: Seq<char>,
)
    requires
        extends(h1, h2),
        0 <= n,
        prepare_end(h1, n, branch) <= h1.len(),
        prepare_calls(h1, n, plan.new_base, branch),
    ensures
        prepare_end(h2, n, branch) == prepare_end(h1, n, branch),
        prepare_calls(h2, n, plan.new_base, branch),
        prepare_result(h2, n, plan, branch, default_branch) == prepare_result(h1, n, plan, branch, default_branch),
{
    lemma_extends(h1, h2);
    let e = prepare_end(h1, n, branch);
    assert(h2[n] == h1[n]);
    if n + 1 < e {
        assert(h2[n + 1] == h1[n + 1]);
    }
    if n + 2 < e {
        assert(h2[n + 2] == h1[n + 2]);
    }
    if n + 3 < e {
        assert(h2[n + 3] == h1[n + 3]);
    }
    if n + 4 < e {
        assert(h2[n + 4] == h1[n + 4]);
    }
}

/// What starting a sync for `plan` did, with its commands from record `n`
/// of `h` on and its journal writes `ev`: the sync prepared and saved to the
/// journal before anything is rewritten, then carried on (`pending_run`).
pub open spec fn started_run(
    h: Seq<CallRecord>,
    n: int,
    plan: PlanView,
    current: Seq<char>,
    default_branch: Seq<char>,
    in_progress: bool,
    ev: Seq<JournalEntry>,
    r: Result<(bool, bool), GwErrorView>,
) -> bool {
    let n1 = prepare_end(h, n, current);
    &&& prepare_calls(h, n, plan.new_base, current)
    &&& match prepare_result(h, n, plan, current, default_branch) {
        Err(e) => h.len() == n1 && ev.len() == 0 && r == Err::<(bool, bool), GwErrorView>(e),
        Ok(p) => {
            &&& ev.len() >= 1 && ev[0].saved == Some(p) && ev[0].at == n1
            &&& if !ev[0].ok {
                h.len() == n1 && ev.len() == 1 && r is Err
            } else {
                pending_run(h, n1, p, current, in_progress, ev.skip(1), r)
            }
        },
    }
}

/// Start a sync for `plan`: freeze and save it in the journal before
/// rewriting anything, then carry it on. Gives whether it force-pushed and
/// whether the branch is published.
pub fn start_pending_sync<E: CommandExecutor, S: JournalStore>(
    client: &mut GitHubClient<E>,
    journal: &mut RecordingJournal<S>,
    plan: &Plan,
    current: &str,
    default_branch: &str,
    rebase_in_progress: bool,
) -> (r: Result<(bool, bool), GwError>)
    ensures
        extends(old(client).history(), final(client).history()),
        final(journal).entries().take(old(journal).entries().len() as int) == old(journal).entries(),
        final(journal).entries().len() >= old(journal).entries().len(),
        started_run(
            final(client).history(),
            old(client).history().len() as int,
            plan@,
            current@,
            default_branch@,
            rebase_in_progress,
            final(journal).entries().skip(old(journal).entries().len() as int),
            run_view(r),
        ),
{
    let ghost h0 = client.history();
    let ghost n = h0.len() as int;
    let ghost ev0 = journal.entries();
    let prepared = prepare_pending(client.executor_mut(), plan, current, default_branch);
    let ghost h1 = client.history();
    let pending = match prepared {
        Err(e) => {
            proof {
                assert(journal.entries().skip(ev0.len() as int) =~= Seq::<JournalEntry>::empty());
                assert(journal.entries().take(ev0.len() as int) =~= ev0);
            }
            return Err(e);
        },
        Ok(p) => p,
    };
    let saved = journal.save(client, &pending);
    let ghost ev1 = journal.entries();
    if let Err(e) = saved {
        proof {
            assert(journal.entries().skip(ev0.len() as int) =~= seq![ev1.last()]);
            assert(journal.entries().take(ev0.len() as int) =~= ev0);
        }
        return Err(e);
    }
    let r = run_pending_sync(client, journal, pending, current, rebase_in_progress);
    proof {
        let h = client.history();
        let ev = journal.entries();
        lemma_extends_trans(h0, h1, h);
        lemma_prepare_frame(h1, h, n, plan@, current@, default_branch@);
        assert(ev.take(ev1.len() as int).take(ev0.len() as int) =~= ev.take(ev0.len() as int));
        assert(ev1.take(ev0.len() as int) =~= ev0);
        assert(ev.take(ev0.len() as int) =~= ev0);
        assert(ev.skip(ev0.len() as int).skip(1) =~= ev.skip(ev1.len() as int));
        assert(ev.skip(ev0.len() as int)[0] == ev1.last());
    }
    r
}

} // verus!
