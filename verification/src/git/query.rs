//! Read-only git operations.

use vstd::prelude::*;

use crate::error::{GwError, GwErrorView};
use crate::git::{
    bool_result_view, count_result_view, git_call_at, git_check, git_output, output_view, ran_git,
    string_result_view,
};
use crate::github::client::{args_view, ran_ok, CallRecord, CommandExecutor, CommandOutputView};
use crate::text::{cat, cat3, first_field, first_field_view, lines, lines_view, parse_usize, parse_usize_view, str_eq, strip_prefix, trim, trim_view};

verus! {

/// The arguments of `git ls-remote` asking whether `origin` has `branch`.
pub open spec fn ls_remote_args(branch: Seq<char>) -> Seq<Seq<char>> {
    seq!["ls-remote"@, "--exit-code"@, "--heads"@, "origin"@, branch]
}

/// `git ls-remote --exit-code` found the branch (exit code 0).
pub open spec fn remote_found(r: Result<CommandOutputView, GwErrorView>) -> bool {
    r is Ok && r->Ok_0.code == Some(0i32)
}

/// `git ls-remote --exit-code` proved the branch absent (exit code 2).
pub open spec fn remote_absent(r: Result<CommandOutputView, GwErrorView>) -> bool {
    r is Ok && r->Ok_0.code == Some(2i32)
}

/// The failure of an `ls-remote` that gave no definite answer.
pub open spec fn remote_query_error(r: Result<CommandOutputView, GwErrorView>, branch: Seq<char>) -> GwErrorView {
    match r {
        Err(e) => e,
        Ok(o) => GwErrorView::GitCommandFailed(
            "Could not query remote branch '"@ + branch + "': "@ + trim_view(o.stderr),
        ),
    }
}

/// What an `ls-remote` run says of the branch's existence on `origin`.
pub open spec fn remote_exists_view(r: Result<CommandOutputView, GwErrorView>, branch: Seq<char>) -> Result<bool, GwErrorView> {
    if remote_found(r) {
        Ok(true)
    } else if remote_absent(r) {
        Ok(false)
    } else {
        Err(remote_query_error(r, branch))
    }
}

/// The view of an optional text.
pub open spec fn opt_string_view(o: Option<String>) -> Option<Seq<char>> {
    match o {
        Some(s) => Some(s@),
        None => None,
    }
}

/// A successful run's non-empty output; nothing otherwise.
pub open spec fn nonempty_output(r: Result<CommandOutputView, GwErrorView>) -> Option<Seq<char>> {
    match output_view(r) {
        Ok(s) => if s.len() > 0 {
            Some(s)
        } else {
            None
        },
        Err(_) => None,
    }
}

/// The arguments reading a branch's configuration `key`.
pub open spec fn config_get_args(branch: Seq<char>, key: Seq<char>) -> Seq<Seq<char>> {
    seq!["config"@, "--get"@, "branch."@ + branch + "."@ + key]
}

/// The arguments naming a branch's upstream.
pub open spec fn upstream_args(branch: Seq<char>) -> Seq<Seq<char>> {
    seq!["rev-parse"@, "--abbrev-ref"@, branch + "@{upstream}"@]
}

/// The arguments counting the commits in `to` that are not in `from`.
pub open spec fn rev_count_args(from: Seq<char>, to: Seq<char>) -> Seq<Seq<char>> {
    seq!["rev-list"@, "--count"@, from + ".."@ + to]
}

/// What a `rev-list --count` run gives.
pub open spec fn count_view(r: Result<CommandOutputView, GwErrorView>) -> Result<nat, GwErrorView> {
    match output_view(r) {
        Err(e) => Err(e),
        Ok(s) => match parse_usize_view(s) {
            Some(n) => Ok(n as nat),
            None => Err(GwErrorView::GitCommandFailed("Failed to parse commit count"@)),
        },
    }
}

/// The arguments checking that a local branch exists.
pub open spec fn show_ref_args(branch: Seq<char>) -> Seq<Seq<char>> {
    seq!["show-ref"@, "--verify"@, "--quiet"@, "refs/heads/"@ + branch]
}

/// The failure when a branch has no upstream.
pub open spec fn no_upstream_error(branch: Seq<char>) -> GwErrorView {
    GwErrorView::Other("Branch '"@ + branch + "' has no upstream"@)
}

/// The number of stashes a `stash list` run shows.
pub open spec fn stash_count_view(r: Result<CommandOutputView, GwErrorView>) -> nat {
    match output_view(r) {
        Ok(s) => if s.len() == 0 {
            0
        } else {
            lines_view(s).len()
        },
        Err(_) => 0,
    }
}

/// Whether we are inside a git repository (`git rev-parse --git-dir`).
pub fn is_git_repo<E: CommandExecutor>(exec: &mut E) -> (r: bool)
    ensures
        ran_git(old(exec).history(), final(exec).history(), seq!["rev-parse"@, "--git-dir"@]),
        r == ran_ok(final(exec).history().last().result),
{
    let r = git_check(exec, &["rev-parse", "--git-dir"]);
    assert(args_view(seq!["rev-parse", "--git-dir"]) =~= seq!["rev-parse"@, "--git-dir"@]);
    r
}

/// The current branch name (`HEAD` when detached).
pub fn current_branch<E: CommandExecutor>(exec: &mut E) -> (r: Result<String, GwError>)
    ensures
        ran_git(old(exec).history(), final(exec).history(), seq!["rev-parse"@, "--abbrev-ref"@, "HEAD"@]),
        string_result_view(r) == output_view(final(exec).history().last().result),
{
    let r = git_output(exec, &["rev-parse", "--abbrev-ref", "HEAD"]);
    assert(args_view(seq!["rev-parse", "--abbrev-ref", "HEAD"]) =~= seq![
        "rev-parse"@,
        "--abbrev-ref"@,
        "HEAD"@,
    ]);
    r
}

/// The top-level directory of the current worktree.
pub fn worktree_root<E: CommandExecutor>(exec: &mut E) -> (r: Result<String, GwError>)
    ensures
        ran_git(old(exec).history(), final(exec).history(), seq!["rev-parse"@, "--show-toplevel"@]),
        string_result_view(r) == output_view(final(exec).history().last().result),
{
    let r = git_output(exec, &["rev-parse", "--show-toplevel"]);
    assert(args_view(seq!["rev-parse", "--show-toplevel"]) =~= seq!["rev-parse"@, "--show-toplevel"@]);
    r
}

/// The git directory (`.git`, or `.git/worktrees/<name>` in a linked worktree).
pub fn git_dir<E: CommandExecutor>(exec: &mut E) -> (r: Result<String, GwError>)
    ensures
        ran_git(old(exec).history(), final(exec).history(), seq!["rev-parse"@, "--git-dir"@]),
        string_result_view(r) == output_view(final(exec).history().last().result),
{
    let r = git_output(exec, &["rev-parse", "--git-dir"]);
    assert(args_view(seq!["rev-parse", "--git-dir"]) =~= seq!["rev-parse"@, "--git-dir"@]);
    r
}

/// The common git directory (the main repository's `.git`).
pub fn git_common_dir<E: CommandExecutor>(exec: &mut E) -> (r: Result<String, GwError>)
    ensures
        ran_git(old(exec).history(), final(exec).history(), seq!["rev-parse"@, "--git-common-dir"@]),
        string_result_view(r) == output_view(final(exec).history().last().result),
{
    let r = git_output(exec, &["rev-parse", "--git-common-dir"]);
    assert(args_view(seq!["rev-parse", "--git-common-dir"]) =~= seq!["rev-parse"@, "--git-common-dir"@]);
    r
}

/// The index after the linked-worktree check that starts at record `n` of `h`.
pub open spec fn worktree_check_end(h: Seq<CallRecord>, n: int) -> int {
    match output_view(h[n].result) {
        Err(_) => n + 1,
        Ok(_) => n + 2,
    }
}

/// The runs of the linked-worktree check start at record `n` of `h`.
pub open spec fn worktree_check_calls(h: Seq<CallRecord>, n: int) -> bool {
    &&& git_call_at(h, n, seq!["rev-parse"@, "--git-dir"@])
    &&& output_view(h[n].result) is Ok ==> git_call_at(h, n + 1, seq!["rev-parse"@, "--git-common-dir"@])
}

/// What the linked-worktree check starting at record `n` of `h` gives.
pub open spec fn worktree_check_result(h: Seq<CallRecord>, n: int) -> Result<bool, GwErrorView> {
    match output_view(h[n].result) {
        Err(e) => Err(e),
        Ok(d) => match output_view(h[n + 1].result) {
            Err(e) => Err(e),
            Ok(c) => Ok(d != c),
        },
    }
}

/// Whether we are in a linked worktree: its git directory differs from the common one.
pub fn is_worktree<E: CommandExecutor>(exec: &mut E) -> (r: Result<bool, GwError>)
    ensures
        ({
            let h0 = old(exec).history();
            let h = final(exec).history();
            let n = h0.len() as int;
            &&& crate::git::extends(h0, h)
            &&& worktree_check_calls(h, n)
            &&& h.len() == worktree_check_end(h, n)
            &&& bool_result_view(r) == worktree_check_result(h, n)
        }),
{
    let ghost h0 = exec.history();
    let d = git_dir(exec);
    let ghost h1 = exec.history();
    let d = match d {
        Ok(d) => d,
        Err(e) => {
            assert(exec.history().take(h0.len() as int) =~= h0);
            return Err(e);
        },
    };
    let c = git_common_dir(exec);
    proof {
        assert(exec.history().take(h0.len() as int) =~= h0) by {
            assert(exec.history().drop_last() == h1);
        }
        assert(exec.history()[h0.len() as int] == h1[h0.len() as int]);
    }
    match c {
        Ok(c) => {
            let same = str_eq(d.as_str(), c.as_str());
            Ok(!same)
        },
        Err(e) => Err(e),
    }
}

/// Whether a local branch exists.
pub fn branch_exists<E: CommandExecutor>(exec: &mut E, branch: &str) -> (r: bool)
    ensures
        ran_git(old(exec).history(), final(exec).history(), show_ref_args(branch@)),
        r == ran_ok(final(exec).history().last().result),
{
    let full = cat("refs/heads/", branch);
    let fs = full.as_str();
    let r = git_check(exec, &["show-ref", "--verify", "--quiet", fs]);
    assert(args_view(seq!["show-ref", "--verify", "--quiet", fs]) =~= show_ref_args(branch@));
    r
}

/// Run `git ls-remote --exit-code --heads origin <branch>`.
fn ls_remote<E: CommandExecutor>(exec: &mut E, branch: &str) -> (r: Result<crate::github::client::CommandOutput, GwError>)
    ensures
        ran_git(old(exec).history(), final(exec).history(), ls_remote_args(branch@)),
        crate::github::client::run_result_view(r) == final(exec).history().last().result,
{
    let r = exec.execute("git", &["ls-remote", "--exit-code", "--heads", "origin", branch]);
    proof {
        assert(args_view(seq!["ls-remote", "--exit-code", "--heads", "origin", branch]) =~= ls_remote_args(
            branch@,
        ));
        assert(exec.history().drop_last() =~= old(exec).history());
    }
    r
}

/// Whether `origin` has `branch`: `Ok` only for a definite answer (exit code
/// 0: yes, 2: no); any other outcome is an error, never "absent".
pub fn remote_branch_exists<E: CommandExecutor>(exec: &mut E, branch: &str) -> (r: Result<bool, GwError>)
    ensures
        ran_git(old(exec).history(), final(exec).history(), ls_remote_args(branch@)),
        bool_result_view(r) == remote_exists_view(final(exec).history().last().result, branch@),
{
    let out = ls_remote(exec, branch);
    match out {
        Err(e) => Err(e),
        Ok(o) => {
            if o.code == Some(0i32) {
                Ok(true)
            } else if o.code == Some(2i32) {
                Ok(false)
            } else {
                let t = trim(o.stderr.as_str());
                let head = cat3("Could not query remote branch '", branch, "': ");
                Err(GwError::GitCommandFailed(cat(head.as_str(), t.as_str())))
            }
        },
    }
}

/// The commit that `origin`'s `branch` points at: `None` when the branch is
/// provably absent, an error when the remote gave no definite answer.
pub fn remote_branch_tip<E: CommandExecutor>(exec: &mut E, branch: &str) -> (r: Result<Option<String>, GwError>)
    ensures
        ran_git(old(exec).history(), final(exec).history(), ls_remote_args(branch@)),
        ({
            let res = final(exec).history().last().result;
            if remote_found(res) {
                r matches Ok(Some(t)) && t@ == first_field_view(trim_view(res->Ok_0.stdout))
            } else if remote_absent(res) {
                r matches Ok(None)
            } else {
                r matches Err(e) && e@ == remote_query_error(res, branch@)
            }
        }),
{
    let out = ls_remote(exec, branch);
    match out {
        Err(e) => Err(e),
        Ok(o) => {
            if o.code == Some(0i32) {
                let t = trim(o.stdout.as_str());
                Ok(Some(first_field(t.as_str())))
            } else if o.code == Some(2i32) {
                Ok(None)
            } else {
                let t = trim(o.stderr.as_str());
                let head = cat3("Could not query remote branch '", branch, "': ");
                Err(GwError::GitCommandFailed(cat(head.as_str(), t.as_str())))
            }
        },
    }
}

/// Read a branch's configuration `key`; `None` when unset or empty.
fn branch_config<E: CommandExecutor>(exec: &mut E, branch: &str, key: &str) -> (r: Option<String>)
    ensures
        ran_git(old(exec).history(), final(exec).history(), config_get_args(branch@, key@)),
        opt_string_view(r) == nonempty_output(final(exec).history().last().result),
{
    let name = cat3("branch.", branch, ".");
    let full = cat(name.as_str(), key);
    let fs = full.as_str();
    let out = git_output(exec, &["config", "--get", fs]);
    assert(args_view(seq!["config", "--get", fs]) =~= config_get_args(branch@, key@));
    match out {
        Ok(v) => {
            if v.as_str().is_empty() {
                None
            } else {
                Some(v)
            }
        },
        Err(_) => None,
    }
}

/// The recorded base branch of a stacked branch (`branch.<name>.gwBase`);
/// `None` when unset, meaning the branch targets the default branch.
pub fn branch_base<E: CommandExecutor>(exec: &mut E, branch: &str) -> (r: Option<String>)
    ensures
        ran_git(old(exec).history(), final(exec).history(), config_get_args(branch@, "gwBase"@)),
        opt_string_view(r) == nonempty_output(final(exec).history().last().result),
{
    branch_config(exec, branch, "gwBase")
}

/// The recorded fork point of a stacked branch (`branch.<name>.gwBaseSha`).
pub fn branch_base_sha<E: CommandExecutor>(exec: &mut E, branch: &str) -> (r: Option<String>)
    ensures
        ran_git(old(exec).history(), final(exec).history(), config_get_args(branch@, "gwBaseSha"@)),
        opt_string_view(r) == nonempty_output(final(exec).history().last().result),
{
    branch_config(exec, branch, "gwBaseSha")
}

/// The commit hash of `HEAD`.
pub fn head_commit<E: CommandExecutor>(exec: &mut E) -> (r: Result<String, GwError>)
    ensures
        ran_git(old(exec).history(), final(exec).history(), seq!["rev-parse"@, "HEAD"@]),
        string_result_view(r) == output_view(final(exec).history().last().result),
{
    let r = git_output(exec, &["rev-parse", "HEAD"]);
    assert(args_view(seq!["rev-parse", "HEAD"]) =~= seq!["rev-parse"@, "HEAD"@]);
    r
}

/// The abbreviated commit hash of `HEAD`.
pub fn short_commit<E: CommandExecutor>(exec: &mut E) -> (r: Result<String, GwError>)
    ensures
        ran_git(old(exec).history(), final(exec).history(), seq!["rev-parse"@, "--short"@, "HEAD"@]),
        string_result_view(r) == output_view(final(exec).history().last().result),
{
    let r = git_output(exec, &["rev-parse", "--short", "HEAD"]);
    assert(args_view(seq!["rev-parse", "--short", "HEAD"]) =~= seq!["rev-parse"@, "--short"@, "HEAD"@]);
    r
}

/// The subject line of `HEAD`'s commit message.
pub fn head_commit_message<E: CommandExecutor>(exec: &mut E) -> (r: Result<String, GwError>)
    ensures
        ran_git(old(exec).history(), final(exec).history(), seq!["log"@, "-1"@, "--format=%s"@]),
        string_result_view(r) == output_view(final(exec).history().last().result),
{
    let r = git_output(exec, &["log", "-1", "--format=%s"]);
    assert(args_view(seq!["log", "-1", "--format=%s"]) =~= seq!["log"@, "-1"@, "--format=%s"@]);
    r
}

/// Whether the working tree has unstaged changes (`git diff --quiet` fails).
pub fn has_unstaged_changes<E: CommandExecutor>(exec: &mut E) -> (r: bool)
    ensures
        ran_git(old(exec).history(), final(exec).history(), seq!["diff"@, "--quiet"@]),
        r == !ran_ok(final(exec).history().last().result),
{
    let ok = git_check(exec, &["diff", "--quiet"]);
    assert(args_view(seq!["diff", "--quiet"]) =~= seq!["diff"@, "--quiet"@]);
    !ok
}

/// Whether the index has staged changes (`git diff --cached --quiet` fails).
pub fn has_staged_changes<E: CommandExecutor>(exec: &mut E) -> (r: bool)
    ensures
        ran_git(old(exec).history(), final(exec).history(), seq!["diff"@, "--cached"@, "--quiet"@]),
        r == !ran_ok(final(exec).history().last().result),
{
    let ok = git_check(exec, &["diff", "--cached", "--quiet"]);
    assert(args_view(seq!["diff", "--cached", "--quiet"]) =~= seq!["diff"@, "--cached"@, "--quiet"@]);
    !ok
}

/// Whether there are staged or unstaged changes; the index is asked only
/// when the working tree shows none.
pub fn has_uncommitted_changes<E: CommandExecutor>(exec: &mut E) -> (r: bool)
    ensures
        ({
            let h0 = old(exec).history();
            let h = final(exec).history();
            let n = h0.len() as int;
            &&& h.take(n) == h0
            &&& git_call_at(h, n, seq!["diff"@, "--quiet"@])
            &&& if !ran_ok(h[n].result) {
                h.len() == n + 1 && r
            } else {
                &&& h.len() == n + 2
                &&& git_call_at(h, n + 1, seq!["diff"@, "--cached"@, "--quiet"@])
                &&& r == !ran_ok(h[n + 1].result)
            }
        }),
{
    let ghost h0 = exec.history();
    if has_unstaged_changes(exec) {
        assert(exec.history().take(h0.len() as int) =~= h0);
        return true;
    }
    let ghost h1 = exec.history();
    let r = has_staged_changes(exec);
    proof {
        assert(exec.history().take(h0.len() as int) =~= h0) by {
            assert(exec.history().drop_last() == h1);
        }
        assert(exec.history()[h0.len() as int] == h1[h0.len() as int]);
    }
    r
}

/// Whether there are untracked, not ignored files.
pub fn has_untracked_files<E: CommandExecutor>(exec: &mut E) -> (r: bool)
    ensures
        ran_git(
            old(exec).history(),
            final(exec).history(),
            seq!["ls-files"@, "--others"@, "--exclude-standard"@],
        ),
        r == (nonempty_output(final(exec).history().last().result) is Some),
{
    let out = git_output(exec, &["ls-files", "--others", "--exclude-standard"]);
    assert(args_view(seq!["ls-files", "--others", "--exclude-standard"]) =~= seq![
        "ls-files"@,
        "--others"@,
        "--exclude-standard"@,
    ]);
    match out {
        Ok(s) => !s.as_str().is_empty(),
        Err(_) => false,
    }
}

/// The upstream of a local branch, if it has one.
pub fn get_upstream<E: CommandExecutor>(exec: &mut E, branch: &str) -> (r: Option<String>)
    ensures
        ran_git(old(exec).history(), final(exec).history(), upstream_args(branch@)),
        opt_string_view(r) == nonempty_output(final(exec).history().last().result),
{
    let spec_ref = cat(branch, "@{upstream}");
    let ss = spec_ref.as_str();
    let out = git_output(exec, &["rev-parse", "--abbrev-ref", ss]);
    assert(args_view(seq!["rev-parse", "--abbrev-ref", ss]) =~= upstream_args(branch@));
    match out {
        Ok(v) => {
            if v.as_str().is_empty() {
                None
            } else {
                Some(v)
            }
        },
        Err(_) => None,
    }
}

/// Whether a branch tracks a remote branch.
pub fn has_remote_tracking<E: CommandExecutor>(exec: &mut E, branch: &str) -> (r: bool)
    ensures
        ran_git(old(exec).history(), final(exec).history(), upstream_args(branch@)),
        r == (nonempty_output(final(exec).history().last().result) is Some),
{
    get_upstream(exec, branch).is_some()
}

/// The number of commits in `to` that are not in `from`.
pub fn commit_count<E: CommandExecutor>(exec: &mut E, from: &str, to: &str) -> (r: Result<usize, GwError>)
    ensures
        ran_git(old(exec).history(), final(exec).history(), rev_count_args(from@, to@)),
        count_result_view(r) == count_view(final(exec).history().last().result),
{
    let range = cat3(from, "..", to);
    let rs = range.as_str();
    let out = git_output(exec, &["rev-list", "--count", rs]);
    assert(args_view(seq!["rev-list", "--count", rs]) =~= rev_count_args(from@, to@));
    match out {
        Err(e) => Err(e),
        Ok(s) => match parse_usize(s.as_str()) {
            Some(n) => Ok(n),
            None => Err(GwError::GitCommandFailed("Failed to parse commit count".to_string())),
        },
    }
}

/// The number of commits of `branch` that its upstream lacks.
pub fn unpushed_commit_count<E: CommandExecutor>(exec: &mut E, branch: &str) -> (r: Result<usize, GwError>)
    ensures
        ({
            let h0 = old(exec).history();
            let h = final(exec).history();
            let n = h0.len() as int;
            &&& h.take(n) == h0
            &&& git_call_at(h, n, upstream_args(branch@))
            &&& match nonempty_output(h[n].result) {
                None => h.len() == n + 1 && count_result_view(r) == Err::<nat, GwErrorView>(
                    no_upstream_error(branch@),
                ),
                Some(u) => {
                    &&& h.len() == n + 2
                    &&& git_call_at(h, n + 1, rev_count_args(u, branch@))
                    &&& count_result_view(r) == count_view(h[n + 1].result)
                },
            }
        }),
{
    let ghost h0 = exec.history();
    let up = get_upstream(exec, branch);
    let ghost h1 = exec.history();
    match up {
        None => {
            assert(exec.history().take(h0.len() as int) =~= h0);
            let msg = cat3("Branch '", branch, "' has no upstream");
            Err(GwError::Other(msg))
        },
        Some(u) => {
            let r = commit_count(exec, u.as_str(), branch);
            proof {
                assert(exec.history().take(h0.len() as int) =~= h0) by {
                    assert(exec.history().drop_last() == h1);
                }
                assert(exec.history()[h0.len() as int] == h1[h0.len() as int]);
            }
            r
        },
    }
}

/// The number of commits of the upstream that `branch` lacks.
pub fn behind_upstream_count<E: CommandExecutor>(exec: &mut E, branch: &str) -> (r: Result<usize, GwError>)
    ensures
        ({
            let h0 = old(exec).history();
            let h = final(exec).history();
            let n = h0.len() as int;
            &&& h.take(n) == h0
            &&& git_call_at(h, n, upstream_args(branch@))
            &&& match nonempty_output(h[n].result) {
                None => h.len() == n + 1 && count_result_view(r) == Err::<nat, GwErrorView>(
                    no_upstream_error(branch@),
                ),
                Some(u) => {
                    &&& h.len() == n + 2
                    &&& git_call_at(h, n + 1, rev_count_args(branch@, u))
                    &&& count_result_view(r) == count_view(h[n + 1].result)
                },
            }
        }),
{
    let ghost h0 = exec.history();
    let up = get_upstream(exec, branch);
    let ghost h1 = exec.history();
    match up {
        None => {
            assert(exec.history().take(h0.len() as int) =~= h0);
            let msg = cat3("Branch '", branch, "' has no upstream");
            Err(GwError::Other(msg))
        },
        Some(u) => {
            let r = commit_count(exec, branch, u.as_str());
            proof {
                assert(exec.history().take(h0.len() as int) =~= h0) by {
                    assert(exec.history().drop_last() == h1);
                }
                assert(exec.history()[h0.len() as int] == h1[h0.len() as int]);
            }
            r
        },
    }
}

/// The number of stashes (0 when `git stash list` fails).
pub fn stash_count<E: CommandExecutor>(exec: &mut E) -> (r: usize)
    ensures
        ran_git(old(exec).history(), final(exec).history(), seq!["stash"@, "list"@]),
        r == stash_count_view(final(exec).history().last().result),
{
    let out = git_output(exec, &["stash", "list"]);
    assert(args_view(seq!["stash", "list"]) =~= seq!["stash"@, "list"@]);
    match out {
        Ok(s) => {
            if s.as_str().is_empty() {
                0
            } else {
                lines(s.as_str()).len()
            }
        },
        Err(_) => 0,
    }
}

/// The message of the latest stash, if there is one.
pub fn get_latest_stash_message<E: CommandExecutor>(exec: &mut E) -> (r: Option<String>)
    ensures
        ran_git(old(exec).history(), final(exec).history(), seq!["stash"@, "list"@, "-1"@, "--format=%gs"@]),
        opt_string_view(r) == nonempty_output(final(exec).history().last().result),
{
    let out = git_output(exec, &["stash", "list", "-1", "--format=%gs"]);
    assert(args_view(seq!["stash", "list", "-1", "--format=%gs"]) =~= seq![
        "stash"@,
        "list"@,
        "-1"@,
        "--format=%gs"@,
    ]);
    match out {
        Ok(v) => {
            if v.as_str().is_empty() {
                None
            } else {
                Some(v)
            }
        },
        Err(_) => None,
    }
}

/// Whether `HEAD` has a parent commit, so that a commit can be undone.
pub fn has_commits_to_undo<E: CommandExecutor>(exec: &mut E) -> (r: bool)
    ensures
        ran_git(old(exec).history(), final(exec).history(), seq!["rev-parse"@, "HEAD~1"@]),
        r == ran_ok(final(exec).history().last().result),
{
    let r = git_check(exec, &["rev-parse", "HEAD~1"]);
    assert(args_view(seq!["rev-parse", "HEAD~1"]) =~= seq!["rev-parse"@, "HEAD~1"@]);
    r
}

/// The default remote branch: `origin/main` when `origin` has `main`, else
/// `origin/master` when it has `master`. A remote that cannot be asked counts
/// as having neither.
pub fn get_default_remote_branch<E: CommandExecutor>(exec: &mut E) -> (r: Result<String, GwError>)
    ensures
        ({
            let h0 = old(exec).history();
            let h = final(exec).history();
            let n = h0.len() as int;
            &&& h.take(n) == h0
            &&& git_call_at(h, n, ls_remote_args("main"@))
            &&& if remote_found(h[n].result) {
                h.len() == n + 1 && (r matches Ok(s) && s@ == "origin/main"@)
            } else {
                &&& h.len() == n + 2
                &&& git_call_at(h, n + 1, ls_remote_args("master"@))
                &&& if remote_found(h[n + 1].result) {
                    r matches Ok(s) && s@ == "origin/master"@
                } else {
                    r matches Err(e) && e@ == GwErrorView::Other(
                        "Neither origin/main nor origin/master exists"@,
                    )
                }
            }
        }),
{
    let ghost h0 = exec.history();
    let m = remote_branch_exists(exec, "main");
    let ghost h1 = exec.history();
    if let Ok(true) = m {
        assert(exec.history().take(h0.len() as int) =~= h0);
        return Ok("origin/main".to_string());
    }
    let m2 = remote_branch_exists(exec, "master");
    proof {
        assert(exec.history().take(h0.len() as int) =~= h0) by {
            assert(exec.history().drop_last() == h1);
        }
        assert(exec.history()[h0.len() as int] == h1[h0.len() as int]);
    }
    if let Ok(true) = m2 {
        Ok("origin/master".to_string())
    } else {
        Err(GwError::Other("Neither origin/main nor origin/master exists".to_string()))
    }
}

/// The index after the default branch lookup that starts at record `n` of `h`.
pub open spec fn default_name_end(h: Seq<CallRecord>, n: int) -> int {
    if remote_found(h[n].result) {
        n + 1
    } else if remote_found(h[n + 1].result) {
        n + 2
    } else if ran_ok(h[n + 2].result) {
        n + 3
    } else {
        n + 4
    }
}

/// The runs of the default branch lookup start at record `n` of `h`.
pub open spec fn default_name_calls(h: Seq<CallRecord>, n: int) -> bool {
    &&& git_call_at(h, n, ls_remote_args("main"@))
    &&& !remote_found(h[n].result) ==> {
        &&& git_call_at(h, n + 1, ls_remote_args("master"@))
        &&& !remote_found(h[n + 1].result) ==> {
            &&& git_call_at(h, n + 2, show_ref_args("main"@))
            &&& !ran_ok(h[n + 2].result) ==> git_call_at(h, n + 3, show_ref_args("master"@))
        }
    }
}

/// The failure when no default branch can be found.
pub open spec fn no_default_branch_error() -> GwErrorView {
    GwErrorView::Other(
        "Could not determine the default branch (no origin/main, origin/master, or local main/master)"@,
    )
}

/// What the default branch lookup starting at record `n` of `h` gives.
pub open spec fn default_name_result(h: Seq<CallRecord>, n: int) -> Result<Seq<char>, GwErrorView> {
    if remote_found(h[n].result) {
        Ok("main"@)
    } else if remote_found(h[n + 1].result) {
        Ok("master"@)
    } else if ran_ok(h[n + 2].result) {
        Ok("main"@)
    } else if ran_ok(h[n + 3].result) {
        Ok("master"@)
    } else {
        Err(no_default_branch_error())
    }
}

/// The default branch's name without the remote prefix: the remote's default
/// branch, else a local `main`, else a local `master`.
pub fn default_branch_name<E: CommandExecutor>(exec: &mut E) -> (r: Result<String, GwError>)
    ensures
        ({
            let h0 = old(exec).history();
            let h = final(exec).history();
            let n = h0.len() as int;
            &&& crate::git::extends(h0, h)
            &&& default_name_calls(h, n)
            &&& h.len() == default_name_end(h, n)
            &&& string_result_view(r) == default_name_result(h, n)
        }),
{
    let ghost h0 = exec.history();
    let remote = get_default_remote_branch(exec);
    let ghost h1 = exec.history();
    if let Ok(rb) = remote {
        proof {
            reveal_strlit("origin/main");
            reveal_strlit("origin/master");
            reveal_strlit("origin/");
            reveal_strlit("main");
            reveal_strlit("master");
        }
        let name = match strip_prefix(rb.as_str(), "origin/") {
            Some(n) => n,
            None => rb,
        };
        proof {
            if remote_found(h1[h0.len() as int].result) {
                assert(name@ =~= "main"@);
            } else {
                assert(name@ =~= "master"@);
            }
        }
        return Ok(name);
    }
    let main_exists = branch_exists(exec, "main");
    let ghost h2 = exec.history();
    proof {
        assert(h2.take(h0.len() as int) =~= h0) by {
            assert(h2.drop_last() == h1);
            assert(h1.take(h0.len() as int) == h0);
        }
        assert(h2[h0.len() as int] == h1[h0.len() as int]);
        assert(h2[h0.len() as int + 1] == h1[h0.len() as int + 1]);
    }
    if main_exists {
        return Ok("main".to_string());
    }
    let master_exists = branch_exists(exec, "master");
    proof {
        assert(exec.history().take(h0.len() as int) =~= h0) by {
            assert(exec.history().drop_last() == h2);
        }
        assert(exec.history()[h0.len() as int] == h2[h0.len() as int]);
        assert(exec.history()[h0.len() as int + 1] == h2[h0.len() as int + 1]);
        assert(exec.history()[h0.len() as int + 2] == h2[h0.len() as int + 2]);
    }
    if master_exists {
        return Ok("master".to_string());
    }
    Err(
        GwError::Other(
            "Could not determine the default branch (no origin/main, origin/master, or local main/master)".to_string(),
        ),
    )
}

/// How far `branch` is behind `base`: the commits of `base` it lacks, 0 when
/// they cannot be counted.
pub fn behind_base_count<E: CommandExecutor>(exec: &mut E, branch: &str, base: &str) -> (r: usize)
    ensures
        ran_git(old(exec).history(), final(exec).history(), rev_count_args(branch@, base@)),
        r == match count_view(final(exec).history().last().result) {
            Ok(n) => n,
            Err(_) => 0,
        },
{
    match commit_count(exec, branch, base) {
        Ok(n) => n,
        Err(_) => 0,
    }
}

/// Whether `HEAD` is detached (the current branch reads `HEAD`).
pub fn is_detached_head<E: CommandExecutor>(exec: &mut E) -> (r: bool)
    ensures
        ran_git(old(exec).history(), final(exec).history(), seq!["rev-parse"@, "--abbrev-ref"@, "HEAD"@]),
        r == (output_view(final(exec).history().last().result) == Ok::<Seq<char>, GwErrorView>("HEAD"@)),
{
    let b = current_branch(exec);
    match b {
        Ok(name) => str_eq(name.as_str(), "HEAD"),
        Err(_) => false,
    }
}

/// The top-level directory of the repository.
pub fn repo_root<E: CommandExecutor>(exec: &mut E) -> (r: Result<String, GwError>)
    ensures
        ran_git(old(exec).history(), final(exec).history(), seq!["rev-parse"@, "--show-toplevel"@]),
        string_result_view(r) == output_view(final(exec).history().last().result),
{
    worktree_root(exec)
}

/// Whether `reference` names an object (`git rev-parse --verify --quiet`).
pub fn ref_exists<E: CommandExecutor>(exec: &mut E, reference: &str) -> (r: bool)
    ensures
        ran_git(old(exec).history(), final(exec).history(), seq!["rev-parse"@, "--verify"@, "--quiet"@, reference@]),
        r == ran_ok(final(exec).history().last().result),
{
    let r = git_check(exec, &["rev-parse", "--verify", "--quiet", reference]);
    assert(args_view(seq!["rev-parse", "--verify", "--quiet", reference]) =~= seq![
        "rev-parse"@,
        "--verify"@,
        "--quiet"@,
        reference@,
    ]);
    r
}

/// Whether `ancestor` is in the history of `descendant` (`git merge-base --is-ancestor`).
pub fn is_ancestor<E: CommandExecutor>(exec: &mut E, ancestor: &str, descendant: &str) -> (r: bool)
    ensures
        ran_git(
            old(exec).history(),
            final(exec).history(),
            seq!["merge-base"@, "--is-ancestor"@, ancestor@, descendant@],
        ),
        r == ran_ok(final(exec).history().last().result),
{
    let r = git_check(exec, &["merge-base", "--is-ancestor", ancestor, descendant]);
    assert(args_view(seq!["merge-base", "--is-ancestor", ancestor, descendant]) =~= seq![
        "merge-base"@,
        "--is-ancestor"@,
        ancestor@,
        descendant@,
    ]);
    r
}

/// The commit hash that `reference` names.
pub fn rev_parse<E: CommandExecutor>(exec: &mut E, reference: &str) -> (r: Result<String, GwError>)
    ensures
        ran_git(old(exec).history(), final(exec).history(), seq!["rev-parse"@, reference@]),
        string_result_view(r) == output_view(final(exec).history().last().result),
{
    let r = git_output(exec, &["rev-parse", reference]);
    assert(args_view(seq!["rev-parse", reference]) =~= seq!["rev-parse"@, reference@]);
    r
}

} // verus!
