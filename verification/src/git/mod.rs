//! Git operations, run through a command executor.
//!
//! Every operation names the `git` command it runs; its contract says which
//! command was appended to the executor's history and how the command's
//! report becomes the result.

pub mod lifecycle;
pub mod mutation;
pub mod query;

pub use mutation::{
    add_all, checkout, checkout_new_branch, commit, delete_branch, delete_remote_branch,
    discard_all_changes, fetch_prune, force_delete_branch, force_push_with_lease, force_update_branch,
    git_run_in_dir, log_commits, pull, pull_ff_only, push_with_expected_tip, rebase, rebase_onto,
    reset_soft, set_branch_base, set_branch_base_sha, unset_branch_base, worktree_add, worktree_prune,
    worktree_remove,
};
pub use query::{
    behind_base_count, behind_upstream_count, branch_base, branch_base_sha, branch_exists, commit_count,
    current_branch, default_branch_name, get_default_remote_branch, get_latest_stash_message,
    get_upstream, git_common_dir, git_dir, has_commits_to_undo, has_remote_tracking,
    has_staged_changes, has_uncommitted_changes, has_unstaged_changes, has_untracked_files,
    head_commit, head_commit_message, is_ancestor, is_detached_head, is_git_repo, is_worktree,
    ref_exists, remote_branch_exists, remote_branch_tip, repo_root, rev_parse, short_commit,
    stash_count, unpushed_commit_count, worktree_root,
};

use vstd::prelude::*;

use crate::error::{GwError, GwErrorView};
use crate::github::client::{args_view, ran_ok, CallRecord, CommandExecutor, CommandOutputView};
use crate::text::{trim, trim_view};

verus! {

/// `h` continues `h0`: it keeps every record of `h0` and may add more.
pub open spec fn extends(h0: Seq<CallRecord>, h: Seq<CallRecord>) -> bool {
    h0.len() <= h.len() && h.take(h0.len() as int) == h0
}

/// A history that continues `h0` agrees with it on every record of `h0`.
pub proof fn lemma_extends(h0: Seq<CallRecord>, h: Seq<CallRecord>)
    requires
        extends(h0, h),
    ensures
        forall|j: int| 0 <= j < h0.len() ==> #[trigger] h[j] == h0[j],
{
    assert forall|j: int| 0 <= j < h0.len() implies #[trigger] h[j] == h0[j] by {
        assert(h.take(h0.len() as int)[j] == h[j]);
    }
}

/// Continuing a continuation continues the original.
pub proof fn lemma_extends_trans(h0: Seq<CallRecord>, h1: Seq<CallRecord>, h2: Seq<CallRecord>)
    requires
        extends(h0, h1),
        extends(h1, h2),
    ensures
        extends(h0, h2),
{
    lemma_extends(h0, h1);
    lemma_extends(h1, h2);
    assert(h2.take(h0.len() as int) =~= h0);
}

/// Record `i` of `h` is a `git` run with `args`, in the current directory.
pub open spec fn git_call_at(h: Seq<CallRecord>, i: int, args: Seq<Seq<char>>) -> bool {
    &&& 0 <= i < h.len()
    &&& h[i].program == "git"@
    &&& h[i].args == args
    &&& h[i].dir is None
}

/// The history `h` is `h0` followed by one `git` run with `args`.
pub open spec fn ran_git(h0: Seq<CallRecord>, h: Seq<CallRecord>, args: Seq<Seq<char>>) -> bool {
    &&& h.len() == h0.len() + 1
    &&& h.drop_last() == h0
    &&& git_call_at(h, h0.len() as int, args)
}

/// What a run gives when its output is wanted: the trimmed standard output
/// on success, the trimmed standard error as a failure otherwise.
pub open spec fn output_view(r: Result<CommandOutputView, GwErrorView>) -> Result<Seq<char>, GwErrorView> {
    match r {
        Err(e) => Err(e),
        Ok(o) => if o.success {
            Ok(trim_view(o.stdout))
        } else {
            Err(GwErrorView::GitCommandFailed(trim_view(o.stderr)))
        },
    }
}

/// What a run gives when only its success matters.
pub open spec fn run_view(r: Result<CommandOutputView, GwErrorView>) -> Result<(), GwErrorView> {
    match output_view(r) {
        Err(e) => Err(e),
        Ok(_) => Ok(()),
    }
}

/// The view of a text result.
pub open spec fn string_result_view(r: Result<String, GwError>) -> Result<Seq<char>, GwErrorView> {
    match r {
        Ok(s) => Ok(s@),
        Err(e) => Err(e@),
    }
}

/// The view of a result without a value.
pub open spec fn unit_view(r: Result<(), GwError>) -> Result<(), GwErrorView> {
    match r {
        Ok(()) => Ok(()),
        Err(e) => Err(e@),
    }
}

/// The view of a yes/no result.
pub open spec fn bool_result_view(r: Result<bool, GwError>) -> Result<bool, GwErrorView> {
    match r {
        Ok(b) => Ok(b),
        Err(e) => Err(e@),
    }
}

/// The view of a count result.
pub open spec fn count_result_view(r: Result<usize, GwError>) -> Result<nat, GwErrorView> {
    match r {
        Ok(n) => Ok(n as nat),
        Err(e) => Err(e@),
    }
}

/// Run `git` with `args` and give its trimmed standard output.
pub(crate) fn git_output<E: CommandExecutor>(exec: &mut E, args: &[&str]) -> (r: Result<String, GwError>)
    ensures
        ran_git(old(exec).history(), final(exec).history(), args_view(args@)),
        string_result_view(r) == output_view(final(exec).history().last().result),
{
    let out = exec.execute("git", args);
    proof {
        assert(final(exec).history().drop_last() =~= old(exec).history());
    }
    match out {
        Err(e) => Err(e),
        Ok(o) => {
            if o.success {
                Ok(trim(o.stdout.as_str()))
            } else {
                Err(GwError::GitCommandFailed(trim(o.stderr.as_str())))
            }
        },
    }
}

/// Run `git` with `args` and tell whether it succeeded.
pub(crate) fn git_check<E: CommandExecutor>(exec: &mut E, args: &[&str]) -> (r: bool)
    ensures
        ran_git(old(exec).history(), final(exec).history(), args_view(args@)),
        r == ran_ok(final(exec).history().last().result),
{
    let out = exec.execute("git", args);
    proof {
        assert(final(exec).history().drop_last() =~= old(exec).history());
    }
    match out {
        Err(_) => false,
        Ok(o) => o.success,
    }
}

/// Run `git` with `args`; a failure carries its trimmed standard error.
pub(crate) fn git_run<E: CommandExecutor>(exec: &mut E, args: &[&str]) -> (r: Result<(), GwError>)
    ensures
        ran_git(old(exec).history(), final(exec).history(), args_view(args@)),
        unit_view(r) == run_view(final(exec).history().last().result),
{
    let out = exec.execute("git", args);
    proof {
        assert(final(exec).history().drop_last() =~= old(exec).history());
    }
    match out {
        Err(e) => Err(e),
        Ok(o) => {
            if o.success {
                Ok(())
            } else {
                Err(GwError::GitCommandFailed(trim(o.stderr.as_str())))
            }
        },
    }
}

} // verus!
