//! `gw status`: the lines that describe where the repository stands.

use vstd::prelude::*;

use crate::error::message_view;
use crate::git::extends;
use crate::github::client::{lookup_at, lookup_calls_at, lookup_runs, ran_ok, CallRecord, CommandExecutor, GitHubClient};
use crate::github::types::{merge_method_name, PrInfo, PrInfoView, PrState, PrStateView};
use crate::output::{bold, bold_view, info, marked_view, success, warn, BLUE, GREEN, YELLOW};
use crate::state::repo::RepoType;
use crate::state::sync::SyncState;
use crate::state::working_dir::{working_dir_description, WorkingDirState};
use crate::text::{cat, cat3, cat5, decimal_view, str_eq, strings_view, u64_to_decimal};

verus! {

/// An information line (ℹ).
pub open spec fn info_view(msg: Seq<char>) -> Seq<char> {
    marked_view(BLUE@, "ℹ"@, msg)
}

/// A success line (✓).
pub open spec fn success_view(msg: Seq<char>) -> Seq<char> {
    marked_view(GREEN@, "✓"@, msg)
}

/// A warning line (⚠).
pub open spec fn warn_view(msg: Seq<char>) -> Seq<char> {
    marked_view(YELLOW@, "⚠"@, msg)
}

/// The line naming the kind of checkout.
pub fn repo_line(repo_type: &RepoType) -> (r: String)
    ensures
        r@ == match repo_type {
            RepoType::MainRepo { .. } => info_view("Repository: main repo"@),
            RepoType::Worktree { home_branch } => info_view(
                "Repository: worktree (home: "@ + bold_view(home_branch@) + ")"@,
            ),
        },
{
    match repo_type {
        RepoType::MainRepo { .. } => info("Repository: main repo"),
        RepoType::Worktree { home_branch } => {
            let b = bold(home_branch.as_str());
            info(cat3("Repository: worktree (home: ", b.as_str(), ")").as_str())
        },
    }
}

/// The line naming the current branch and the home branch.
pub fn branch_line(current: &str, home_branch: &str) -> (r: String)
    ensures
        r@ == if current@ == home_branch@ {
            success_view("Branch: "@ + bold_view(current@) + " (home)"@)
        } else {
            info_view("Branch: "@ + bold_view(current@) + " (home: "@ + home_branch@ + ")"@)
        },
{
    let b = bold(current);
    if str_eq(current, home_branch) {
        success(cat3("Branch: ", b.as_str(), " (home)").as_str())
    } else {
        info(cat5("Branch: ", b.as_str(), " (home: ", home_branch, ")").as_str())
    }
}

/// The line describing the working directory.
pub fn working_dir_line(wd: &WorkingDirState) -> (r: String)
    ensures
        r@ == if *wd is Clean {
            success_view("Working directory: clean"@)
        } else {
            warn_view("Working directory: "@ + working_dir_description(*wd))
        },
{
    match wd {
        WorkingDirState::Clean => success("Working directory: clean"),
        _ => warn(cat("Working directory: ", wd.description()).as_str()),
    }
}

/// The line describing the branch against its upstream.
pub open spec fn upstream_line_view(s: SyncState) -> Seq<char> {
    match s {
        SyncState::NoUpstream => info_view("Upstream: no tracking branch"@),
        SyncState::Synced => success_view("Upstream: synced"@),
        SyncState::HasUnpushedCommits { count } => warn_view(
            "Upstream: "@ + decimal_view(count as nat) + " unpushed commit(s)"@,
        ),
        SyncState::Behind { count } => warn_view("Upstream: "@ + decimal_view(count as nat) + " commit(s) behind"@),
        SyncState::Diverged { ahead, behind } => warn_view(
            "Upstream: diverged ("@ + decimal_view(ahead as nat) + " ahead, "@ + decimal_view(behind as nat)
                + " behind)"@,
        ),
    }
}

/// The line describing the branch against its upstream.
pub fn upstream_line(s: &SyncState) -> (r: String)
    ensures
        r@ == upstream_line_view(*s),
{
    match s {
        SyncState::NoUpstream => info("Upstream: no tracking branch"),
        SyncState::Synced => success("Upstream: synced"),
        SyncState::HasUnpushedCommits { count } => {
            let d = u64_to_decimal(*count as u64);
            warn(cat3("Upstream: ", d.as_str(), " unpushed commit(s)").as_str())
        },
        SyncState::Behind { count } => {
            let d = u64_to_decimal(*count as u64);
            warn(cat3("Upstream: ", d.as_str(), " commit(s) behind").as_str())
        },
        SyncState::Diverged { ahead, behind } => {
            let a = u64_to_decimal(*ahead as u64);
            let b = u64_to_decimal(*behind as u64);
            let head = cat5("Upstream: diverged (", a.as_str(), " ahead, ", b.as_str(), " behind)");
            warn(head.as_str())
        },
    }
}

/// The line telling whether the branch is on `origin`.
pub fn remote_line(current: &str, has_remote: bool) -> (r: String)
    ensures
        r@ == if has_remote {
            info_view("Remote: origin/"@ + current@ + " exists"@)
        } else {
            info_view("Remote: not pushed"@)
        },
{
    if has_remote {
        info(cat3("Remote: origin/", current, " exists").as_str())
    } else {
        info("Remote: not pushed")
    }
}

/// The line counting the stashes, when there are some.
pub fn stash_line(count: usize) -> (r: Option<String>)
    ensures
        count == 0 ==> r is None,
        count > 0 ==> (r matches Some(l) && l@ == info_view("Stashes: "@ + decimal_view(count as nat))),
{
    if count == 0 {
        return None;
    }
    let d = u64_to_decimal(count as u64);
    Some(info(cat("Stashes: ", d.as_str()).as_str()))
}

/// The line that shows a pull request's number, title and state.
pub open spec fn pr_line_view(pr: PrInfoView) -> Seq<char> {
    let head = "PR: #"@ + decimal_view(pr.number as nat) + " "@ + pr.title + " ["@;
    match pr.state {
        PrStateView::Open => info_view(head + "OPEN]"@),
        PrStateView::Merged { method, .. } => success_view(head + "MERGED ("@ + merge_method_name(method) + ")]"@),
        PrStateView::Closed => warn_view(head + "CLOSED]"@),
    }
}

/// The line that shows a pull request's number, title and state.
pub fn pr_line(pr: &PrInfo) -> (r: String)
    ensures
        r@ == pr_line_view(pr@),
{
    let n = u64_to_decimal(pr.number);
    let head = cat5("PR: #", n.as_str(), " ", pr.title.as_str(), " [");
    match &pr.state {
        PrState::Open => info(cat(head.as_str(), "OPEN]").as_str()),
        PrState::Merged { method, .. } => {
            let m = method.to_string();
            success(cat3(head.as_str(), "MERGED (", cat(m.as_str(), ")]").as_str()).as_str())
        },
        PrState::Closed => warn(cat(head.as_str(), "CLOSED]").as_str()),
    }
}

/// What the branch's pull request section found: the pull request, the
/// parent branch when its pull request merged, and the lines to show.
#[derive(Debug)]
pub struct PrStatus {
    pub pr: Option<PrInfo>,
    pub base_pr_merged: Option<String>,
    pub lines: Vec<String>,
}

/// What looking at the parent's pull request (records from `i` of `h`)
/// gives: the parent when it merged, and the line to show.
pub open spec fn base_check_view(h: Seq<CallRecord>, i: int, base: Seq<char>) -> (Option<Seq<char>>, Seq<Seq<char>>) {
    match lookup_at(h, i) {
        Ok(Some(bp)) => if bp.state is Merged {
            (Some(base), seq![success_view("Base PR: #"@ + decimal_view(bp.number as nat) + " [MERGED] ✓"@)])
        } else {
            (
                None,
                seq![
                    info_view(
                        "Base PR: #"@ + decimal_view(bp.number as nat) + " ["@ + if bp.state is Open {
                            "OPEN"@
                        } else {
                            "CLOSED"@
                        } + "]"@,
                    ),
                ],
            )
        },
        Ok(None) => (None, seq![info_view("Base PR: none (for "@ + base + ")"@)]),
        Err(_) => (None, seq![]),
    }
}

/// Whether the parent's pull request is looked at for a pull request.
pub open spec fn checks_base(pr: PrInfoView) -> bool {
    pr.base_branch != "main"@ && pr.state is Open
}

/// The index after the pull request section's runs that start at record `n` of `h`.
pub open spec fn pr_status_end(h: Seq<CallRecord>, n: int) -> int {
    let p = n + 1 + lookup_runs(h, n + 1);
    if !ran_ok(h[n].result) {
        n + 1
    } else {
        match lookup_at(h, n + 1) {
            Ok(Some(pr)) => if checks_base(pr) {
                p + lookup_runs(h, p)
            } else {
                p
            },
            _ => p,
        }
    }
}

/// The runs of the pull request section of `branch` start at record `n` of `h`.
pub open spec fn pr_status_calls(h: Seq<CallRecord>, n: int, branch: Seq<char>) -> bool {
    let p = n + 1 + lookup_runs(h, n + 1);
    &&& crate::commands::sync::gh_version_at(h, n)
    &&& ran_ok(h[n].result) ==> {
        &&& lookup_calls_at(h, n + 1, branch)
        &&& match lookup_at(h, n + 1) {
            Ok(Some(pr)) => checks_base(pr) ==> lookup_calls_at(h, p, pr.base_branch),
            _ => true,
        }
    }
}

/// What the pull request section whose runs start at record `n` of `h` finds.
pub open spec fn pr_status_view(h: Seq<CallRecord>, n: int) -> (Option<PrInfoView>, Option<Seq<char>>, Seq<Seq<char>>) {
    let p = n + 1 + lookup_runs(h, n + 1);
    if !ran_ok(h[n].result) {
        (None, None, seq![])
    } else {
        match lookup_at(h, n + 1) {
            Ok(Some(pr)) => {
                let base_line: Seq<Seq<char>> = if pr.base_branch != "main"@ {
                    seq![info_view("Base: "@ + pr.base_branch + " (not main)"@)]
                } else {
                    seq![]
                };
                let head = seq![pr_line_view(pr)] + base_line;
                if checks_base(pr) {
                    let (merged, lines) = base_check_view(h, p, pr.base_branch);
                    (Some(pr), merged, head + lines)
                } else {
                    (Some(pr), None, head)
                }
            },
            Ok(None) => (None, None, seq![info_view("PR: none"@)]),
            Err(e) => (None, None, seq![warn_view("Could not fetch PR info: "@ + message_view(e))]),
        }
    }
}

/// The view of a pull request section.
pub open spec fn pr_status_result(s: PrStatus) -> (Option<PrInfoView>, Option<Seq<char>>, Seq<Seq<char>>) {
    (
        match s.pr {
            Some(p) => Some(p@),
            None => None,
        },
        match s.base_pr_merged {
            Some(b) => Some(b@),
            None => None,
        },
        strings_view(s.lines@),
    )
}

/// The pull request section of `gw status`: the branch's pull request (when
/// `gh` is available) and, for an open one stacked on another branch than
/// `main`, whether the parent's pull request merged.
pub fn pr_status<E: CommandExecutor>(client: &mut GitHubClient<E>, branch: &str) -> (r: PrStatus)
    ensures
        ({
            let h0 = old(client).history();
            let h = final(client).history();
            let n = h0.len() as int;
            &&& extends(h0, h)
            &&& pr_status_calls(h, n, branch@)
            &&& h.len() == pr_status_end(h, n)
            &&& pr_status_result(r) == pr_status_view(h, n)
        }),
{
    let ghost h0 = client.history();
    let ghost n = h0.len() as int;
    let mut lines: Vec<String> = Vec::new();
    if !client.is_available() {
        assert(client.history().take(n) =~= h0);
        assert(strings_view(lines@) =~= Seq::<Seq<char>>::empty());
        return PrStatus { pr: None, base_pr_merged: None, lines };
    }
    let ghost h1 = client.history();
    let look = client.get_pr_for_branch(branch);
    let ghost h2 = client.history();
    proof {
        crate::git::lemma_extends(h1, h2);
        assert(h2[n] == h1[n]);
        assert(h2.take(n) =~= h0) by {
            assert(h2.take(h1.len() as int) == h1);
        }
    }
    match look {
        Ok(Some(pr)) => {
            lines.push(pr_line(&pr));
            let on_main = str_eq(pr.base_branch.as_str(), "main");
            if !on_main {
                lines.push(info(cat3("Base: ", pr.base_branch.as_str(), " (not main)").as_str()));
            }
            let ghost head_lines = strings_view(lines@);
            if !on_main && pr.state.is_open() {
                let base_look = client.get_pr_for_branch(pr.base_branch.as_str());
                proof {
                    let h3 = client.history();
                    crate::git::lemma_extends(h2, h3);
                    assert(h3[n] == h2[n]);
                    assert(h3[n + 1] == h2[n + 1]);
                    if lookup_runs(h2, n + 1) == 2 {
                        assert(h3[n + 2] == h2[n + 2]);
                    }
                    assert(h3.take(n) =~= h0) by {
                        assert(h3.take(h2.len() as int) == h2);
                    }
                }
                let merged = match base_look {
                    Ok(Some(bp)) => {
                        let d = u64_to_decimal(bp.number);
                        if bp.state.is_merged() {
                            lines.push(success(cat3("Base PR: #", d.as_str(), " [MERGED] ✓").as_str()));
                            Some(pr.base_branch.clone())
                        } else {
                            let word = if bp.state.is_open() {
                                "OPEN"
                            } else {
                                "CLOSED"
                            };
                            lines.push(info(cat5("Base PR: #", d.as_str(), " [", word, "]").as_str()));
                            None
                        }
                    },
                    Ok(None) => {
                        lines.push(info(cat3("Base PR: none (for ", pr.base_branch.as_str(), ")").as_str()));
                        None
                    },
                    Err(_) => None,
                };
                proof {
                    assert(strings_view(lines@) =~= head_lines + base_check_view(
                        client.history(),
                        n + 1 + lookup_runs(h2, n + 1),
                        pr@.base_branch,
                    ).1);
                    assert(strings_view(lines@) =~= pr_status_view(client.history(), n).2);
                }
                return PrStatus { pr: Some(pr), base_pr_merged: merged, lines };
            }
            proof {
                assert(strings_view(lines@) =~= pr_status_view(h2, n).2);
            }
            PrStatus { pr: Some(pr), base_pr_merged: None, lines }
        },
        Ok(None) => {
            lines.push(info("PR: none"));
            assert(strings_view(lines@) =~= seq![info_view("PR: none"@)]);
            PrStatus { pr: None, base_pr_merged: None, lines }
        },
        Err(e) => {
            let m = e.to_string();
            lines.push(warn(cat("Could not fetch PR info: ", m.as_str()).as_str()));
            assert(strings_view(lines@) =~= seq![warn_view("Could not fetch PR info: "@ + message_view(e@))]);
            PrStatus { pr: None, base_pr_merged: None, lines }
        },
    }
}

} // verus!
