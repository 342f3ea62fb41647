//! `gw await`: watch one pull request, by number, until it merges or closes,
//! waiting for CI first, then clean up its head branch.
//!
//! The watcher is a state machine. Each step here makes its GitHub queries
//! and decides; the caller sleeps between steps as the step says.

use vstd::prelude::*;

use crate::error::{message_view, GwError, GwErrorView};
use crate::git::extends;
use crate::github::client::{args_view, lookup_at, lookup_calls_at, lookup_runs, ran_ok, CommandExecutor, CommandOutputView, GitHubClient};
use crate::github::types::{PrInfo, PrInfoView, PrState, PrStateView};
use crate::text::{cat, cat3, cat5, decimal_view, seq_contains, str_contains, u64_to_decimal};

verus! {

/// How many consecutive "no checks reported" polls confirm that a branch has
/// no CI at all, rather than CI that has not registered yet.
pub const NO_CI_CONFIRMATIONS: u32 = 3;

/// Seconds between the quick polls that confirm there is no CI.
pub const NO_CI_PROBE_DELAY_SECS: u64 = 2;

/// Where a pull request's CI checks are.
#[derive(Debug, Clone, Copy, PartialEq, Eq, Structural)]
pub enum CiState {
    /// No checks reported yet (or no CI at all).
    NotStarted,
    /// Checks exist and some are still running.
    Pending,
    /// Every check passed.
    Passed,
    /// Some check failed.
    Failed,
}

/// The CI state a `gh pr checks` run shows: exit 0 means all passed, 8 means
/// some pending, 1 means failed, unless standard error says no checks were
/// reported; anything else is taken as pending, so that a passing hiccup of
/// `gh` makes the wait retry rather than fail.
pub open spec fn ci_state_of(success: bool, code: Option<i32>, stderr: Seq<char>) -> CiState {
    if success {
        CiState::Passed
    } else if code == Some(8i32) {
        CiState::Pending
    } else if seq_contains(stderr, "no checks reported"@) {
        CiState::NotStarted
    } else if code == Some(1i32) {
        CiState::Failed
    } else {
        CiState::Pending
    }
}

/// Classify the result of a `gh pr checks` run.
pub fn classify_ci_state(success: bool, code: Option<i32>, stderr: &str) -> (r: CiState)
    ensures
        r == ci_state_of(success, code, stderr@),
{
    if success {
        return CiState::Passed;
    }
    if code == Some(8i32) {
        return CiState::Pending;
    }
    if str_contains(stderr, "no checks reported") {
        return CiState::NotStarted;
    }
    if code == Some(1i32) {
        return CiState::Failed;
    }
    CiState::Pending
}

/// The failure when the CI checks cannot be asked for.
pub open spec fn ci_query_error(pr: Seq<char>, e: GwErrorView) -> GwErrorView {
    GwErrorView::Other("Could not query CI checks for PR #"@ + pr + ": "@ + message_view(e))
}

/// What a `gh pr checks` run gives.
pub open spec fn ci_query_view(r: Result<CommandOutputView, GwErrorView>, pr: Seq<char>) -> Result<CiState, GwErrorView> {
    match r {
        Err(e) => Err(ci_query_error(pr, e)),
        Ok(o) => Ok(ci_state_of(o.success, o.code, o.stderr)),
    }
}

/// The view of a CI state result.
pub open spec fn ci_result_view(r: Result<CiState, GwError>) -> Result<CiState, GwErrorView> {
    match r {
        Ok(s) => Ok(s),
        Err(e) => Err(e@),
    }
}

/// Ask `gh pr checks <pr>` (without waiting) where the checks stand.
pub fn query_ci_state<E: CommandExecutor>(client: &mut GitHubClient<E>, pr: &str) -> (r: Result<CiState, GwError>)
    ensures
        final(client).history().len() == old(client).history().len() + 1,
        final(client).history().drop_last() == old(client).history(),
        final(client).history().last().program == "gh"@,
        final(client).history().last().args == seq!["pr"@, "checks"@, pr@],
        final(client).history().last().dir is None,
        ci_result_view(r) == ci_query_view(final(client).history().last().result, pr@),
{
    let out = client.executor_mut().execute("gh", &["pr", "checks", pr]);
    proof {
        assert(args_view(seq!["pr", "checks", pr]) =~= seq!["pr"@, "checks"@, pr@]);
        assert(client.history().drop_last() =~= old(client).history());
    }
    match out {
        Err(e) => {
            let m = e.to_string();
            let head = cat3("Could not query CI checks for PR #", pr, ": ");
            Err(GwError::Other(cat(head.as_str(), m.as_str())))
        },
        Ok(o) => Ok(classify_ci_state(o.success, o.code, o.stderr.as_str())),
    }
}

/// The terminal state that a pull request lookup shows: merged or closed;
/// `None` for an open pull request or a failed or empty lookup.
pub open spec fn terminal_of(look: Result<Option<PrInfoView>, GwErrorView>) -> Option<PrStateView> {
    match look {
        Ok(Some(p)) => if p.state is Open {
            None
        } else {
            Some(p.state)
        },
        _ => None,
    }
}

/// The view of an optional pull request state.
pub open spec fn opt_state_view(s: Option<PrState>) -> Option<PrStateView> {
    match s {
        Some(s) => Some(s@),
        None => None,
    }
}

/// The pull request's terminal state, if it merged or closed. An open pull
/// request and a failed lookup both give `None`, so that a poller keeps
/// waiting through a passing failure.
pub fn terminal_state<E: CommandExecutor>(client: &mut GitHubClient<E>, selector: &str) -> (r: Option<PrState>)
    ensures
        crate::github::client::looked_up(old(client).history(), final(client).history(), selector@),
        opt_state_view(r) == terminal_of(lookup_at(final(client).history(), old(client).history().len() as int)),
{
    match client.get_pr_for_branch(selector) {
        Ok(Some(pr)) => {
            if pr.state.is_open() {
                None
            } else {
                Some(pr.state)
            }
        },
        _ => None,
    }
}

/// Why the CI wait ended without a failure.
#[derive(Debug, Clone, Copy, PartialEq, Eq, Structural)]
pub enum CiProceed {
    /// Every check passed.
    Passed,
    /// No checks appeared across the confirmation polls: the branch has no CI.
    NoCi,
    /// Some check failed, and the failure is to be ignored.
    IgnoredFailure,
}

/// The next step of the CI wait.
#[derive(Debug)]
pub enum CiStep {
    /// The pull request merged or closed meanwhile.
    Terminal(PrState),
    /// Stop waiting for CI and watch for the merge.
    Proceed(CiProceed),
    /// Poll again after a pause: a short one while confirming that there is no
    /// CI (`quick`), the regular interval otherwise. `streak` counts the
    /// consecutive polls without checks.
    Wait { streak: u32, quick: bool },
}

/// A CI wait step with its state as a view.
pub enum CiStepView {
    Terminal(PrStateView),
    Proceed(CiProceed),
    Wait { streak: u32, quick: bool },
}

/// The view of a CI wait step result.
pub open spec fn ci_step_view(r: Result<CiStep, GwError>) -> Result<CiStepView, GwErrorView> {
    match r {
        Ok(CiStep::Terminal(s)) => Ok(CiStepView::Terminal(s@)),
        Ok(CiStep::Proceed(p)) => Ok(CiStepView::Proceed(p)),
        Ok(CiStep::Wait { streak, quick }) => Ok(CiStepView::Wait { streak, quick }),
        Err(e) => Err(e@),
    }
}

/// The refusal to watch a pull request whose CI failed.
pub open spec fn ci_failed_error(pr_number: u64) -> GwErrorView {
    GwErrorView::Other(
        "CI checks for PR #"@ + decimal_view(pr_number as nat)
            + " did not all pass. Fix the PR, push again, then rerun `gw await "@ + decimal_view(
            pr_number as nat,
        ) + " --open` (or pass --ignore-ci-failure to watch regardless)."@,
    )
}

/// What the CI wait does after seeing `ci`, with `streak` polls without checks before.
pub open spec fn ci_decision(streak: u32, ci: CiState, ignore_ci_failure: bool, pr_number: u64) -> Result<CiStepView, GwErrorView> {
    match ci {
        CiState::NotStarted => if streak + 1 >= NO_CI_CONFIRMATIONS {
            Ok(CiStepView::Proceed(CiProceed::NoCi))
        } else {
            Ok(CiStepView::Wait { streak: (streak + 1) as u32, quick: true })
        },
        CiState::Pending => Ok(CiStepView::Wait { streak: 0, quick: false }),
        CiState::Passed => Ok(CiStepView::Proceed(CiProceed::Passed)),
        CiState::Failed => if ignore_ci_failure {
            Ok(CiStepView::Proceed(CiProceed::IgnoredFailure))
        } else {
            Err(ci_failed_error(pr_number))
        },
    }
}

/// One step of the CI wait: stop if the pull request merged or closed; else
/// ask for its checks and decide whether to proceed, keep waiting, or stop on
/// a failure.
pub fn ci_wait_step<E: CommandExecutor>(
    client: &mut GitHubClient<E>,
    pr_number: u64,
    streak: u32,
    ignore_ci_failure: bool,
) -> (r: Result<CiStep, GwError>)
    requires
        streak < NO_CI_CONFIRMATIONS,
    ensures
        ({
            let h0 = old(client).history();
            let h = final(client).history();
            let n = h0.len() as int;
            let sel = decimal_view(pr_number as nat);
            let p = n + lookup_runs(h, n);
            &&& extends(h0, h)
            &&& lookup_calls_at(h, n, sel)
            &&& match terminal_of(lookup_at(h, n)) {
                Some(s) => h.len() == p && ci_step_view(r) == Ok::<CiStepView, GwErrorView>(CiStepView::Terminal(s)),
                None => {
                    &&& h.len() == p + 1
                    &&& h[p].program == "gh"@
                    &&& h[p].args == seq!["pr"@, "checks"@, sel]
                    &&& h[p].dir is None
                    &&& ci_step_view(r) == match ci_query_view(h[p].result, sel) {
                        Err(e) => Err(e),
                        Ok(ci) => ci_decision(streak, ci, ignore_ci_failure, pr_number),
                    }
                },
            }
        }),
{
    let ghost h0 = client.history();
    let ghost n = h0.len() as int;
    let num = u64_to_decimal(pr_number);
    if let Some(state) = terminal_state(client, num.as_str()) {
        return Ok(CiStep::Terminal(state));
    }
    let ghost h1 = client.history();
    let ci = query_ci_state(client, num.as_str());
    proof {
        let h2 = client.history();
        assert(h2.drop_last() == h1);
        crate::git::lemma_extends(h1, h2);
        assert(h2[n] == h1[n]);
        if lookup_runs(h1, n) == 2 {
            assert(h2[n + 1] == h1[n + 1]);
        }
        assert(h2.take(n) =~= h0) by {
            assert(h1.take(n) == h0);
        }
    }
    let ci = ci?;
    match ci {
        CiState::NotStarted => {
            let next = streak + 1;
            if next >= NO_CI_CONFIRMATIONS {
                Ok(CiStep::Proceed(CiProceed::NoCi))
            } else {
                Ok(CiStep::Wait { streak: next, quick: true })
            }
        },
        CiState::Pending => Ok(CiStep::Wait { streak: 0, quick: false }),
        CiState::Passed => Ok(CiStep::Proceed(CiProceed::Passed)),
        CiState::Failed => {
            if ignore_ci_failure {
                Ok(CiStep::Proceed(CiProceed::IgnoredFailure))
            } else {
                let d = u64_to_decimal(pr_number);
                let head = cat5(
                    "CI checks for PR #",
                    d.as_str(),
                    " did not all pass. Fix the PR, push again, then rerun `gw await ",
                    d.as_str(),
                    " --open` (or pass --ignore-ci-failure to watch regardless).",
                );
                Err(GwError::Other(head))
            }
        },
    }
}

/// The CI wait proceeds without checks only after a run of consecutive
/// "no checks reported" polls as long as the confirmation count.
pub proof fn lemma_no_ci_needs_confirmations(streak: u32, ci: CiState, ignore: bool, pr_number: u64)
    requires
        ci_decision(streak, ci, ignore, pr_number) == Ok::<CiStepView, GwErrorView>(
            CiStepView::Proceed(CiProceed::NoCi),
        ),
    ensures
        ci is NotStarted,
        streak + 1 >= NO_CI_CONFIRMATIONS,
{
}

/// A failed CI stops the wait unless the failure is to be ignored; the
/// wait never proceeds on pending checks.
pub proof fn lemma_ci_failure_stops(streak: u32, ci: CiState, ignore: bool, pr_number: u64)
    ensures
        ci is Failed && !ignore ==> ci_decision(streak, ci, ignore, pr_number) is Err,
        ci is Pending ==> ci_decision(streak, ci, ignore, pr_number) matches Ok(CiStepView::Wait { .. }),
{
}

/// What the CI wait step decides from the `gh pr checks` run's output `o`
/// while the pull request is open.
pub open spec fn decision_after_checks(o: CommandOutputView, sel: Seq<char>, streak: u32, ignore: bool, pr_number: u64) -> Result<
    CiStepView,
    GwErrorView,
> {
    match ci_query_view(Ok(o), sel) {
        Err(e) => Err(e),
        Ok(ci) => ci_decision(streak, ci, ignore, pr_number),
    }
}

/// When every check passed (`gh pr checks` exits successfully) the CI wait
/// proceeds at once, as passed: it never waits on checks that all passed,
/// whatever the count of polls without checks before and whether failures
/// are to be ignored.
pub proof fn lemma_passed_checks_proceed(o: CommandOutputView, sel: Seq<char>, streak: u32, ignore: bool, pr_number: u64)
    requires
        o.success,
    ensures
        decision_after_checks(o, sel, streak, ignore, pr_number) == Ok::<CiStepView, GwErrorView>(
            CiStepView::Proceed(CiProceed::Passed),
        ),
{
}

/// While some checks are still running (`gh pr checks` exits with 8) the CI
/// wait polls again after the regular interval, starting the count of polls
/// without checks afresh.
pub proof fn lemma_pending_checks_wait(o: CommandOutputView, sel: Seq<char>, streak: u32, ignore: bool, pr_number: u64)
    requires
        !o.success,
        o.code == Some(8i32),
    ensures
        decision_after_checks(o, sel, streak, ignore, pr_number) == Ok::<CiStepView, GwErrorView>(
            CiStepView::Wait { streak: 0, quick: false },
        ),
{
}

/// What one poll for the merge found.
#[derive(Debug)]
pub enum PollStep {
    /// The pull request merged or closed.
    Terminal(PrState),
    /// Still open: poll again.
    Open,
    /// Not found: poll again.
    NotFound,
    /// The lookup failed: poll again.
    Failed(GwError),
}

/// One poll for the merge, by pull request number, so that it keeps working
/// after the branch was deleted.
pub fn poll_step<E: CommandExecutor>(client: &mut GitHubClient<E>, pr_number: u64) -> (r: PollStep)
    ensures
        crate::github::client::looked_up(
            old(client).history(),
            final(client).history(),
            decimal_view(pr_number as nat),
        ),
        match lookup_at(final(client).history(), old(client).history().len() as int) {
            Ok(Some(p)) => if p.state is Open {
                r is Open
            } else {
                r matches PollStep::Terminal(s) && s@ == p.state
            },
            Ok(None) => r is NotFound,
            Err(e) => r matches PollStep::Failed(x) && x@ == e,
        },
{
    let num = u64_to_decimal(pr_number);
    match client.get_pr_for_branch(num.as_str()) {
        Ok(Some(pr)) => {
            if pr.state.is_open() {
                PollStep::Open
            } else {
                PollStep::Terminal(pr.state)
            }
        },
        Ok(None) => PollStep::NotFound,
        Err(e) => PollStep::Failed(e),
    }
}

/// The seconds between polls for the merge: the interval, at least 1.
pub fn poll_interval(interval: u64) -> (r: u64)
    ensures
        r == if interval >= 1 {
            interval
        } else {
            1
        },
{
    if interval >= 1 {
        interval
    } else {
        1
    }
}

/// How `await` begins.
#[derive(Debug)]
pub enum AwaitStart {
    /// No pull request with that number.
    NotFound,
    /// It already merged: go straight to the merge's follow-up.
    AlreadyMerged(PrInfo),
    /// It was already closed without merging.
    AlreadyClosed(PrInfo),
    /// It is open: watch it.
    Watch(PrInfo),
}

/// The failure when `gh` is missing.
pub open spec fn gh_missing_error() -> GwErrorView {
    GwErrorView::Other("GitHub CLI (gh) is not available. Install it from https://cli.github.com/"@)
}

/// Find the pull request to watch, by number; `gh` is required.
pub fn await_start<E: CommandExecutor>(client: &mut GitHubClient<E>, pr_number: u64) -> (r: Result<AwaitStart, GwError>)
    ensures
        ({
            let h0 = old(client).history();
            let h = final(client).history();
            let n = h0.len() as int;
            &&& extends(h0, h)
            &&& crate::commands::sync::gh_version_at(h, n)
            &&& if !ran_ok(h[n].result) {
                h.len() == n + 1 && (r matches Err(e) && e@ == gh_missing_error())
            } else {
                &&& lookup_calls_at(h, n + 1, decimal_view(pr_number as nat))
                &&& h.len() == n + 1 + lookup_runs(h, n + 1)
                &&& match lookup_at(h, n + 1) {
                    Err(e) => r matches Err(x) && x@ == e,
                    Ok(None) => r matches Ok(AwaitStart::NotFound),
                    Ok(Some(p)) => match p.state {
                        PrStateView::Merged { .. } => r matches Ok(AwaitStart::AlreadyMerged(q)) && q@ == p,
                        PrStateView::Closed => r matches Ok(AwaitStart::AlreadyClosed(q)) && q@ == p,
                        PrStateView::Open => r matches Ok(AwaitStart::Watch(q)) && q@ == p,
                    },
                }
            }
        }),
{
    let ghost h0 = client.history();
    let ghost n = h0.len() as int;
    if !client.is_available() {
        assert(client.history().take(n) =~= h0);
        return Err(
            GwError::Other("GitHub CLI (gh) is not available. Install it from https://cli.github.com/".to_string()),
        );
    }
    let ghost h1 = client.history();
    let num = u64_to_decimal(pr_number);
    let look = client.get_pr_for_branch(num.as_str());
    proof {
        let h2 = client.history();
        crate::git::lemma_extends(h1, h2);
        assert(h2[n] == h1[n]);
        assert(h2.take(n) =~= h0) by {
            assert(h2.take(h1.len() as int) == h1);
        }
    }
    let pr = match look {
        Err(e) => {
            return Err(e);
        },
        Ok(None) => {
            return Ok(AwaitStart::NotFound);
        },
        Ok(Some(pr)) => pr,
    };
    if pr.state.is_merged() {
        Ok(AwaitStart::AlreadyMerged(pr))
    } else if pr.state.is_closed() {
        Ok(AwaitStart::AlreadyClosed(pr))
    } else {
        Ok(AwaitStart::Watch(pr))
    }
}

/// The report of a terminal state and the desktop notification for it.
pub open spec fn terminal_report(state: PrStateView, pr_number: u64) -> (Seq<char>, Seq<char>) {
    let d = decimal_view(pr_number as nat);
    if state is Merged {
        ("PR #"@ + d + " merged!"@, "PR #"@ + d + " merged"@)
    } else {
        ("PR #"@ + d + " was closed without merging"@, "PR #"@ + d + " closed without merging"@)
    }
}

/// The report line and the notification for a pull request that merged or closed.
pub fn react_to_terminal(terminal: &PrState, pr_number: u64) -> (r: (String, String))
    requires
        !(terminal@ is Open),
    ensures
        (r.0@, r.1@) == terminal_report(terminal@, pr_number),
{
    let d = u64_to_decimal(pr_number);
    if terminal.is_merged() {
        (cat3("PR #", d.as_str(), " merged!"), cat3("PR #", d.as_str(), " merged"))
    } else {
        (
            cat3("PR #", d.as_str(), " was closed without merging"),
            cat3("PR #", d.as_str(), " closed without merging"),
        )
    }
}

/// What follows a merge.
#[derive(Debug, PartialEq, Eq)]
pub enum FinishMerged {
    /// The head branch is unknown: never guess which branch to delete.
    UnknownBranch,
    /// Cleanup is suppressed: only point at it.
    Ready(String),
    /// Clean up the pull request's head branch.
    Cleanup(String),
}

/// After a merge: clean up the pull request's own head branch, unless
/// cleanup is suppressed or the branch is unknown.
pub fn finish_merged(head_branch: &str, no_cleanup: bool) -> (r: FinishMerged)
    ensures
        head_branch@.len() == 0 ==> r is UnknownBranch,
        head_branch@.len() > 0 && no_cleanup ==> (r matches FinishMerged::Ready(b) && b@ == head_branch@),
        head_branch@.len() > 0 && !no_cleanup ==> (r matches FinishMerged::Cleanup(b) && b@ == head_branch@),
{
    if head_branch.is_empty() {
        FinishMerged::UnknownBranch
    } else if no_cleanup {
        FinishMerged::Ready(head_branch.to_string())
    } else {
        FinishMerged::Cleanup(head_branch.to_string())
    }
}

} // verus!
