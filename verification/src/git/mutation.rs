//! Git operations that change the repository.

use vstd::prelude::*;

use crate::error::{GwError, GwErrorView};
use crate::git::{git_call_at, git_output, git_run, output_view, ran_git, run_view, unit_view};
use crate::github::client::{args_view, CommandExecutor, CommandOutputView};
use crate::text::{cat, cat3, find, find_view, lines, lines_view, seq_contains, slice_chars, str_contains, strings_view, trim};

verus! {

/// The worktree path in git's "already checked out at '<path>'" message.
pub open spec fn worktree_path_view(msg: Seq<char>) -> Option<Seq<char>> {
    match find_view(msg, "at '"@) {
        None => None,
        Some(i) => {
            let rest = msg.skip(i as int + 4);
            match find_view(rest, "'"@) {
                None => None,
                Some(j) => Some(rest.take(j as int)),
            }
        },
    }
}

/// A checkout failure because another worktree holds the branch becomes
/// `BranchCheckedOutElsewhere`; any other error stays as it is.
pub open spec fn checkout_error_view(branch: Seq<char>, e: GwErrorView) -> GwErrorView {
    match e {
        GwErrorView::GitCommandFailed(msg) => if seq_contains(msg, "already checked out"@) || seq_contains(
            msg,
            "already used by worktree"@,
        ) {
            GwErrorView::BranchCheckedOutElsewhere { branch, path: worktree_path_view(msg) }
        } else {
            e
        },
        _ => e,
    }
}

/// What a checkout run gives.
pub open spec fn checkout_view(branch: Seq<char>, r: Result<CommandOutputView, GwErrorView>) -> Result<(), GwErrorView> {
    match run_view(r) {
        Ok(()) => Ok(()),
        Err(e) => Err(checkout_error_view(branch, e)),
    }
}

/// The arguments setting a branch's configuration `key` to `value`.
pub open spec fn config_set_args(branch: Seq<char>, key: Seq<char>, value: Seq<char>) -> Seq<Seq<char>> {
    seq!["config"@, "branch."@ + branch + "."@ + key, value]
}

/// The arguments removing a branch's configuration `key`.
pub open spec fn config_unset_args(branch: Seq<char>, key: Seq<char>) -> Seq<Seq<char>> {
    seq!["config"@, "--unset"@, "branch."@ + branch + "."@ + key]
}

/// A run of `git config --unset` succeeded, or found the key already unset (exit code 5).
pub open spec fn unset_ok(r: Result<CommandOutputView, GwErrorView>) -> bool {
    r is Ok && (r->Ok_0.success || r->Ok_0.code == Some(5i32))
}

/// What a `git config --unset` run gives.
pub open spec fn unset_view(r: Result<CommandOutputView, GwErrorView>) -> Result<(), GwErrorView> {
    if unset_ok(r) {
        Ok(())
    } else {
        run_view(r)
    }
}

/// The argument of `git push` that only overwrites `branch` on the remote
/// when it still points at `expected` (or is absent, for an empty `expected`).
pub open spec fn lease_arg(branch: Seq<char>, expected: Seq<char>) -> Seq<char> {
    "--force-with-lease=refs/heads/"@ + branch + ":"@ + expected
}

/// The worktree path in git's "already checked out at '<path>'" message.
fn extract_worktree_path(msg: &str) -> (r: Option<String>)
    ensures
        crate::git::query::opt_string_view(r) == worktree_path_view(msg@),
{
    proof {
        reveal_strlit("at '");
    }
    let i = match find(msg, "at '") {
        Some(i) => i,
        None => {
            return None;
        },
    };
    let n = msg.unicode_len();
    let rest = slice_chars(msg, i + 4, n);
    assert(rest@ =~= msg@.skip(i + 4));
    let j = match find(rest.as_str(), "'") {
        Some(j) => j,
        None => {
            return None;
        },
    };
    let path = slice_chars(rest.as_str(), 0, j);
    assert(path@ =~= rest@.take(j as int));
    Some(path)
}

/// Turn git's "already checked out" failure into `BranchCheckedOutElsewhere`.
fn map_checkout_error(branch: &str, err: GwError) -> (r: GwError)
    ensures
        r@ == checkout_error_view(branch@, err@),
{
    let held = match &err {
        GwError::GitCommandFailed(msg) => str_contains(msg.as_str(), "already checked out") || str_contains(
            msg.as_str(),
            "already used by worktree",
        ),
        _ => false,
    };
    if held {
        let path = match &err {
            GwError::GitCommandFailed(msg) => extract_worktree_path(msg.as_str()),
            _ => None,
        };
        return GwError::BranchCheckedOutElsewhere { branch: branch.to_string(), path };
    }
    err
}

/// Fetch from `origin`, pruning deleted remote branches.
pub fn fetch_prune<E: CommandExecutor>(exec: &mut E) -> (r: Result<(), GwError>)
    ensures
        ran_git(old(exec).history(), final(exec).history(), seq!["fetch"@, "--prune"@, "--quiet"@]),
        unit_view(r) == run_view(final(exec).history().last().result),
{
    let r = git_run(exec, &["fetch", "--prune", "--quiet"]);
    assert(args_view(seq!["fetch", "--prune", "--quiet"]) =~= seq!["fetch"@, "--prune"@, "--quiet"@]);
    r
}

/// Check out an existing branch.
pub fn checkout<E: CommandExecutor>(exec: &mut E, branch: &str) -> (r: Result<(), GwError>)
    ensures
        ran_git(old(exec).history(), final(exec).history(), seq!["checkout"@, branch@, "--quiet"@]),
        unit_view(r) == checkout_view(branch@, final(exec).history().last().result),
{
    let r = git_run(exec, &["checkout", branch, "--quiet"]);
    assert(args_view(seq!["checkout", branch, "--quiet"]) =~= seq!["checkout"@, branch@, "--quiet"@]);
    match r {
        Ok(()) => Ok(()),
        Err(e) => Err(map_checkout_error(branch, e)),
    }
}

/// Create a branch at `start_point` and check it out.
pub fn checkout_new_branch<E: CommandExecutor>(exec: &mut E, branch: &str, start_point: &str) -> (r: Result<(), GwError>)
    ensures
        ran_git(
            old(exec).history(),
            final(exec).history(),
            seq!["checkout"@, "-b"@, branch@, start_point@, "--quiet"@],
        ),
        unit_view(r) == checkout_view(branch@, final(exec).history().last().result),
{
    let r = git_run(exec, &["checkout", "-b", branch, start_point, "--quiet"]);
    assert(args_view(seq!["checkout", "-b", branch, start_point, "--quiet"]) =~= seq![
        "checkout"@,
        "-b"@,
        branch@,
        start_point@,
        "--quiet"@,
    ]);
    match r {
        Ok(()) => Ok(()),
        Err(e) => Err(map_checkout_error(branch, e)),
    }
}

/// Pull `branch` from `remote`, fast-forward only: a diverged branch is an error.
pub fn pull_ff_only<E: CommandExecutor>(exec: &mut E, remote: &str, branch: &str) -> (r: Result<(), GwError>)
    ensures
        ran_git(
            old(exec).history(),
            final(exec).history(),
            seq!["pull"@, remote@, branch@, "--ff-only"@, "--quiet"@],
        ),
        unit_view(r) == run_view(final(exec).history().last().result),
{
    let r = git_run(exec, &["pull", remote, branch, "--ff-only", "--quiet"]);
    assert(args_view(seq!["pull", remote, branch, "--ff-only", "--quiet"]) =~= seq![
        "pull"@,
        remote@,
        branch@,
        "--ff-only"@,
        "--quiet"@,
    ]);
    r
}

/// Pull `branch` from `remote`.
pub fn pull<E: CommandExecutor>(exec: &mut E, remote: &str, branch: &str) -> (r: Result<(), GwError>)
    ensures
        ran_git(old(exec).history(), final(exec).history(), seq!["pull"@, remote@, branch@, "--quiet"@]),
        unit_view(r) == run_view(final(exec).history().last().result),
{
    let r = git_run(exec, &["pull", remote, branch, "--quiet"]);
    assert(args_view(seq!["pull", remote, branch, "--quiet"]) =~= seq!["pull"@, remote@, branch@, "--quiet"@]);
    r
}

/// Delete a local branch that is fully merged (`git branch -d`).
pub fn delete_branch<E: CommandExecutor>(exec: &mut E, branch: &str) -> (r: Result<(), GwError>)
    ensures
        ran_git(old(exec).history(), final(exec).history(), seq!["branch"@, "-d"@, branch@]),
        unit_view(r) == run_view(final(exec).history().last().result),
{
    let r = git_run(exec, &["branch", "-d", branch]);
    assert(args_view(seq!["branch", "-d", branch]) =~= seq!["branch"@, "-d"@, branch@]);
    r
}

/// Delete a local branch whether or not it is merged (`git branch -D`).
pub fn force_delete_branch<E: CommandExecutor>(exec: &mut E, branch: &str) -> (r: Result<(), GwError>)
    ensures
        ran_git(old(exec).history(), final(exec).history(), seq!["branch"@, "-D"@, branch@]),
        unit_view(r) == run_view(final(exec).history().last().result),
{
    let r = git_run(exec, &["branch", "-D", branch]);
    assert(args_view(seq!["branch", "-D", branch]) =~= seq!["branch"@, "-D"@, branch@]);
    r
}

/// Delete a branch on `origin`.
pub fn delete_remote_branch<E: CommandExecutor>(exec: &mut E, branch: &str) -> (r: Result<(), GwError>)
    ensures
        ran_git(old(exec).history(), final(exec).history(), seq!["push"@, "origin"@, "--delete"@, branch@]),
        unit_view(r) == run_view(final(exec).history().last().result),
{
    let r = git_run(exec, &["push", "origin", "--delete", branch]);
    assert(args_view(seq!["push", "origin", "--delete", branch]) =~= seq![
        "push"@,
        "origin"@,
        "--delete"@,
        branch@,
    ]);
    r
}

/// The view of a result carrying lines.
pub open spec fn lines_result_view(r: Result<Vec<String>, GwError>) -> Result<Seq<Seq<char>>, GwErrorView> {
    match r {
        Ok(v) => Ok(strings_view(v@)),
        Err(e) => Err(e@),
    }
}

/// The one-line summaries of the commits in `to` that are not in `from`.
pub fn log_commits<E: CommandExecutor>(exec: &mut E, from: &str, to: &str) -> (r: Result<Vec<String>, GwError>)
    ensures
        ran_git(old(exec).history(), final(exec).history(), seq!["log"@, from@ + ".."@ + to@, "--oneline"@]),
        lines_result_view(r) == match output_view(final(exec).history().last().result) {
            Ok(s) => Ok(lines_view(s)),
            Err(e) => Err(e),
        },
{
    let range = cat3(from, "..", to);
    let rs = range.as_str();
    let out = git_output(exec, &["log", rs, "--oneline"]);
    assert(args_view(seq!["log", rs, "--oneline"]) =~= seq!["log"@, from@ + ".."@ + to@, "--oneline"@]);
    match out {
        Ok(s) => Ok(lines(s.as_str())),
        Err(e) => Err(e),
    }
}

/// Stage every change, untracked files included.
pub fn add_all<E: CommandExecutor>(exec: &mut E) -> (r: Result<(), GwError>)
    ensures
        ran_git(old(exec).history(), final(exec).history(), seq!["add"@, "-A"@]),
        unit_view(r) == run_view(final(exec).history().last().result),
{
    let r = git_run(exec, &["add", "-A"]);
    assert(args_view(seq!["add", "-A"]) =~= seq!["add"@, "-A"@]);
    r
}

/// Commit the staged changes with `message`.
pub fn commit<E: CommandExecutor>(exec: &mut E, message: &str) -> (r: Result<(), GwError>)
    ensures
        ran_git(old(exec).history(), final(exec).history(), seq!["commit"@, "-m"@, message@]),
        unit_view(r) == run_view(final(exec).history().last().result),
{
    let r = git_run(exec, &["commit", "-m", message]);
    assert(args_view(seq!["commit", "-m", message]) =~= seq!["commit"@, "-m"@, message@]);
    r
}

/// Move `HEAD` to `target`, keeping the changes staged.
pub fn reset_soft<E: CommandExecutor>(exec: &mut E, target: &str) -> (r: Result<(), GwError>)
    ensures
        ran_git(old(exec).history(), final(exec).history(), seq!["reset"@, "--soft"@, target@]),
        unit_view(r) == run_view(final(exec).history().last().result),
{
    let r = git_run(exec, &["reset", "--soft", target]);
    assert(args_view(seq!["reset", "--soft", target]) =~= seq!["reset"@, "--soft"@, target@]);
    r
}

/// Discard every uncommitted change: reset to `HEAD`, then remove untracked
/// files and directories; the second step runs only when the first succeeded.
pub fn discard_all_changes<E: CommandExecutor>(exec: &mut E) -> (r: Result<(), GwError>)
    ensures
        ({
            let h0 = old(exec).history();
            let h = final(exec).history();
            let n = h0.len() as int;
            &&& h.take(n) == h0
            &&& git_call_at(h, n, seq!["reset"@, "--hard"@, "HEAD"@])
            &&& match run_view(h[n].result) {
                Err(e) => h.len() == n + 1 && unit_view(r) == Err::<(), GwErrorView>(e),
                Ok(()) => {
                    &&& h.len() == n + 2
                    &&& git_call_at(h, n + 1, seq!["clean"@, "-fd"@])
                    &&& unit_view(r) == run_view(h[n + 1].result)
                },
            }
        }),
{
    let ghost h0 = exec.history();
    let first = git_run(exec, &["reset", "--hard", "HEAD"]);
    assert(args_view(seq!["reset", "--hard", "HEAD"]) =~= seq!["reset"@, "--hard"@, "HEAD"@]);
    let ghost h1 = exec.history();
    if let Err(e) = first {
        assert(exec.history().take(h0.len() as int) =~= h0);
        return Err(e);
    }
    let r = git_run(exec, &["clean", "-fd"]);
    proof {
        assert(args_view(seq!["clean", "-fd"]) =~= seq!["clean"@, "-fd"@]);
        assert(exec.history().take(h0.len() as int) =~= h0) by {
            assert(exec.history().drop_last() == h1);
        }
        assert(exec.history()[h0.len() as int] == h1[h0.len() as int]);
    }
    r
}

/// Rebase the current branch onto `target`.
pub fn rebase<E: CommandExecutor>(exec: &mut E, target: &str) -> (r: Result<(), GwError>)
    ensures
        ran_git(old(exec).history(), final(exec).history(), seq!["rebase"@, target@]),
        unit_view(r) == run_view(final(exec).history().last().result),
{
    let r = git_run(exec, &["rebase", target]);
    assert(args_view(seq!["rebase", target]) =~= seq!["rebase"@, target@]);
    r
}

/// Replay only the commits after `boundary` onto `target` (`git rebase --onto`).
pub fn rebase_onto<E: CommandExecutor>(exec: &mut E, target: &str, boundary: &str) -> (r: Result<(), GwError>)
    ensures
        ran_git(old(exec).history(), final(exec).history(), seq!["rebase"@, "--onto"@, target@, boundary@]),
        unit_view(r) == run_view(final(exec).history().last().result),
{
    let r = git_run(exec, &["rebase", "--onto", target, boundary]);
    assert(args_view(seq!["rebase", "--onto", target, boundary]) =~= seq![
        "rebase"@,
        "--onto"@,
        target@,
        boundary@,
    ]);
    r
}

/// Force-push `branch`, refusing when the remote moved since the last fetch.
pub fn force_push_with_lease<E: CommandExecutor>(exec: &mut E, branch: &str) -> (r: Result<(), GwError>)
    ensures
        ran_git(
            old(exec).history(),
            final(exec).history(),
            seq!["push"@, "--force-with-lease"@, "origin"@, branch@],
        ),
        unit_view(r) == run_view(final(exec).history().last().result),
{
    let r = git_run(exec, &["push", "--force-with-lease", "origin", branch]);
    assert(args_view(seq!["push", "--force-with-lease", "origin", branch]) =~= seq![
        "push"@,
        "--force-with-lease"@,
        "origin"@,
        branch@,
    ]);
    r
}

/// Force-push `branch` only if `origin`'s branch still points at `expected`
/// (an empty `expected` means the branch must not exist there yet).
pub fn push_with_expected_tip<E: CommandExecutor>(exec: &mut E, branch: &str, expected: &str) -> (r: Result<(), GwError>)
    ensures
        ran_git(
            old(exec).history(),
            final(exec).history(),
            seq!["push"@, lease_arg(branch@, expected@), "origin"@, branch@],
        ),
        unit_view(r) == run_view(final(exec).history().last().result),
{
    let head = cat3("--force-with-lease=refs/heads/", branch, ":");
    let lease = cat(head.as_str(), expected);
    let ls = lease.as_str();
    let r = git_run(exec, &["push", ls, "origin", branch]);
    assert(args_view(seq!["push", ls, "origin", branch]) =~= seq![
        "push"@,
        lease_arg(branch@, expected@),
        "origin"@,
        branch@,
    ]);
    r
}

/// Add a worktree at `path` on a new branch made at `start_point`.
pub fn worktree_add<E: CommandExecutor>(exec: &mut E, path: &str, branch: &str, start_point: &str) -> (r: Result<(), GwError>)
    ensures
        ran_git(
            old(exec).history(),
            final(exec).history(),
            seq!["worktree"@, "add"@, "-b"@, branch@, path@, start_point@],
        ),
        unit_view(r) == run_view(final(exec).history().last().result),
{
    let r = git_run(exec, &["worktree", "add", "-b", branch, path, start_point]);
    assert(args_view(seq!["worktree", "add", "-b", branch, path, start_point]) =~= seq![
        "worktree"@,
        "add"@,
        "-b"@,
        branch@,
        path@,
        start_point@,
    ]);
    r
}

/// Remove the worktree at `path`, even with changes in it.
pub fn worktree_remove<E: CommandExecutor>(exec: &mut E, path: &str) -> (r: Result<(), GwError>)
    ensures
        ran_git(old(exec).history(), final(exec).history(), seq!["worktree"@, "remove"@, "--force"@, path@]),
        unit_view(r) == run_view(final(exec).history().last().result),
{
    let r = git_run(exec, &["worktree", "remove", "--force", path]);
    assert(args_view(seq!["worktree", "remove", "--force", path]) =~= seq![
        "worktree"@,
        "remove"@,
        "--force"@,
        path@,
    ]);
    r
}

/// Prune the records of worktrees that no longer exist.
pub fn worktree_prune<E: CommandExecutor>(exec: &mut E) -> (r: Result<(), GwError>)
    ensures
        ran_git(old(exec).history(), final(exec).history(), seq!["worktree"@, "prune"@]),
        unit_view(r) == run_view(final(exec).history().last().result),
{
    let r = git_run(exec, &["worktree", "prune"]);
    assert(args_view(seq!["worktree", "prune"]) =~= seq!["worktree"@, "prune"@]);
    r
}

/// Run `git` with `args` in the directory `dir`.
pub fn git_run_in_dir<E: CommandExecutor>(exec: &mut E, dir: &str, args: &[&str]) -> (r: Result<(), GwError>)
    ensures
        final(exec).history().len() == old(exec).history().len() + 1,
        final(exec).history().drop_last() == old(exec).history(),
        final(exec).history().last().program == "git"@,
        final(exec).history().last().args == args_view(args@),
        final(exec).history().last().dir == Some(dir@),
        unit_view(r) == run_view(final(exec).history().last().result),
{
    let out = exec.execute_in_dir("git", args, dir);
    proof {
        assert(exec.history().drop_last() =~= old(exec).history());
    }
    match out {
        Err(e) => Err(e),
        Ok(o) => {
            if o.success {
                Ok(())
            } else {
                Err(GwError::GitCommandFailed(trim(o.stderr.as_str())))
            }
        },
    }
}

/// Set a branch's configuration `key` to `value`.
fn set_branch_config<E: CommandExecutor>(exec: &mut E, branch: &str, key: &str, value: &str) -> (r: Result<(), GwError>)
    ensures
        ran_git(old(exec).history(), final(exec).history(), config_set_args(branch@, key@, value@)),
        unit_view(r) == run_view(final(exec).history().last().result),
{
    let name = cat3("branch.", branch, ".");
    let full = cat(name.as_str(), key);
    let fs = full.as_str();
    let r = git_run(exec, &["config", fs, value]);
    assert(args_view(seq!["config", fs, value]) =~= config_set_args(branch@, key@, value@));
    r
}

/// Record `base` as the stacked parent of `branch` (`branch.<name>.gwBase`).
pub fn set_branch_base<E: CommandExecutor>(exec: &mut E, branch: &str, base: &str) -> (r: Result<(), GwError>)
    ensures
        ran_git(old(exec).history(), final(exec).history(), config_set_args(branch@, "gwBase"@, base@)),
        unit_view(r) == run_view(final(exec).history().last().result),
{
    set_branch_config(exec, branch, "gwBase", base)
}

/// Record `sha` as the fork point of `branch` (`branch.<name>.gwBaseSha`).
pub fn set_branch_base_sha<E: CommandExecutor>(exec: &mut E, branch: &str, sha: &str) -> (r: Result<(), GwError>)
    ensures
        ran_git(old(exec).history(), final(exec).history(), config_set_args(branch@, "gwBaseSha"@, sha@)),
        unit_view(r) == run_view(final(exec).history().last().result),
{
    set_branch_config(exec, branch, "gwBaseSha", sha)
}

/// Remove a branch's configuration `key`; an unset key is no error.
fn unset_branch_config<E: CommandExecutor>(exec: &mut E, branch: &str, key: &str) -> (r: Result<(), GwError>)
    ensures
        ran_git(old(exec).history(), final(exec).history(), config_unset_args(branch@, key@)),
        unit_view(r) == unset_view(final(exec).history().last().result),
{
    let name = cat3("branch.", branch, ".");
    let full = cat(name.as_str(), key);
    let fs = full.as_str();
    let out = exec.execute("git", &["config", "--unset", fs]);
    proof {
        assert(args_view(seq!["config", "--unset", fs]) =~= config_unset_args(branch@, key@));
        assert(exec.history().drop_last() =~= old(exec).history());
    }
    match out {
        Err(e) => Err(e),
        Ok(o) => {
            if o.success || o.code == Some(5i32) {
                Ok(())
            } else {
                Err(GwError::GitCommandFailed(trim(o.stderr.as_str())))
            }
        },
    }
}

/// Forget that `branch` is stacked: remove its recorded parent, then its fork point.
pub fn unset_branch_base<E: CommandExecutor>(exec: &mut E, branch: &str) -> (r: Result<(), GwError>)
    ensures
        ({
            let h0 = old(exec).history();
            let h = final(exec).history();
            let n = h0.len() as int;
            &&& h.take(n) == h0
            &&& git_call_at(h, n, config_unset_args(branch@, "gwBase"@))
            &&& match unset_view(h[n].result) {
                Err(e) => h.len() == n + 1 && unit_view(r) == Err::<(), GwErrorView>(e),
                Ok(()) => {
                    &&& h.len() == n + 2
                    &&& git_call_at(h, n + 1, config_unset_args(branch@, "gwBaseSha"@))
                    &&& unit_view(r) == unset_view(h[n + 1].result)
                },
            }
        }),
{
    let ghost h0 = exec.history();
    let first = unset_branch_config(exec, branch, "gwBase");
    let ghost h1 = exec.history();
    if let Err(e) = first {
        assert(exec.history().take(h0.len() as int) =~= h0);
        return Err(e);
    }
    let r = unset_branch_config(exec, branch, "gwBaseSha");
    proof {
        assert(exec.history().take(h0.len() as int) =~= h0) by {
            assert(exec.history().drop_last() == h1);
        }
        assert(exec.history()[h0.len() as int] == h1[h0.len() as int]);
    }
    r
}

/// Move `branch` to `target` (`git branch -f`); git refuses for a branch
/// checked out in some worktree.
pub fn force_update_branch<E: CommandExecutor>(exec: &mut E, branch: &str, target: &str) -> (r: Result<(), GwError>)
    ensures
        ran_git(old(exec).history(), final(exec).history(), seq!["branch"@, "-f"@, branch@, target@]),
        unit_view(r) == run_view(final(exec).history().last().result),
{
    let r = git_run(exec, &["branch", "-f", branch, target]);
    assert(args_view(seq!["branch", "-f", branch, target]) =~= seq!["branch"@, "-f"@, branch@, target@]);
    r
}

} // verus!
