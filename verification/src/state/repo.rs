//! Which branch a repository or worktree returns to, and which branches are protected.

use vstd::prelude::*;

use crate::error::{GwError, GwErrorView};
use crate::git::query::{
    default_branch_name, default_name_calls, default_name_end, default_name_result, is_worktree,
    worktree_check_calls, worktree_check_end, worktree_check_result,
};
use crate::git::{extends, lemma_extends, lemma_extends_trans, string_result_view};
use crate::github::client::{CallRecord, CommandExecutor};
use crate::text::str_eq;

verus! {

/// The kind of checkout the command runs in.
#[derive(Debug, Clone)]
pub enum RepoType {
    /// The main repository; its home branch is the default branch (`main` or `master`).
    MainRepo { home_branch: String },
    /// A linked worktree; its home branch is named after its directory.
    Worktree { home_branch: String },
}

/// The view of a detected checkout kind: whether it is a linked worktree, and its home branch.
pub open spec fn repo_result_view(r: Result<RepoType, GwError>) -> Result<(bool, Seq<char>), GwErrorView> {
    match r {
        Ok(t) => Ok((t is Worktree, t.home_view())),
        Err(e) => Err(e@),
    }
}

/// What detecting the checkout kind gives when its runs start at record `n`
/// of `h` and the working directory's name is `dir_name`.
pub open spec fn repo_detect_result(
    h: Seq<CallRecord>,
    n: int,
    dir_name: Result<Seq<char>, GwErrorView>,
) -> Result<(bool, Seq<char>), GwErrorView> {
    match worktree_check_result(h, n) {
        Err(e) => Err(e),
        Ok(true) => match dir_name {
            Ok(d) => Ok((true, d)),
            Err(e) => Err(e),
        },
        Ok(false) => match default_name_result(h, worktree_check_end(h, n)) {
            Ok(b) => Ok((false, b)),
            Err(e) => Err(e),
        },
    }
}

impl RepoType {
    /// Ask git which kind of checkout this is: a linked worktree's home branch
    /// is its directory's name (`dir_name`, as the environment gave it), the
    /// main repository's is the default branch.
    pub fn detect<E: CommandExecutor>(exec: &mut E, dir_name: Result<String, GwError>) -> (r: Result<RepoType, GwError>)
        ensures
            ({
                let h0 = old(exec).history();
                let h = final(exec).history();
                let n = h0.len() as int;
                let m = worktree_check_end(h, n);
                &&& extends(h0, h)
                &&& worktree_check_calls(h, n)
                &&& h.len() == if worktree_check_result(h, n) == Ok::<bool, GwErrorView>(false) {
                    default_name_end(h, m)
                } else {
                    m
                }
                &&& worktree_check_result(h, n) == Ok::<bool, GwErrorView>(false) ==> default_name_calls(h, m)
                &&& repo_result_view(r) == repo_detect_result(h, n, string_result_view(dir_name))
            }),
    {
        let ghost h0 = exec.history();
        let ghost n = h0.len() as int;
        let wt = is_worktree(exec)?;
        if wt {
            let d = dir_name?;
            return Ok(RepoType::Worktree { home_branch: d });
        }
        let ghost h1 = exec.history();
        let b = default_branch_name(exec);
        let ghost h2 = exec.history();
        proof {
            lemma_extends_trans(h0, h1, h2);
            lemma_extends(h1, h2);
            assert(h2[n] == h1[n]);
            assert(h2[n + 1] == h1[n + 1]);
        }
        let b = b?;
        Ok(RepoType::MainRepo { home_branch: b })
    }

    /// The home branch of either kind of checkout.
    pub open spec fn home_view(&self) -> Seq<char> {
        match self {
            RepoType::MainRepo { home_branch } => home_branch@,
            RepoType::Worktree { home_branch } => home_branch@,
        }
    }

    /// Whether a branch may never be deleted: `main`, `master` and the home branch.
    pub open spec fn protects(&self, branch: Seq<char>) -> bool {
        branch == "main"@ || branch == "master"@ || branch == self.home_view()
    }

    /// The kind of checkout, from what git reports: a linked worktree is
    /// named by its directory, the main repository by its default branch.
    pub fn from_facts(is_worktree: bool, dir_name: &str, default_branch: &str) -> (r: RepoType)
        ensures
            is_worktree ==> r is Worktree && r.home_view() == dir_name@,
            !is_worktree ==> r is MainRepo && r.home_view() == default_branch@,
    {
        if is_worktree {
            RepoType::Worktree { home_branch: dir_name.to_string() }
        } else {
            RepoType::MainRepo { home_branch: default_branch.to_string() }
        }
    }

    /// The home branch.
    pub fn home_branch(&self) -> (r: &str)
        ensures
            r@ == self.home_view(),
    {
        match self {
            RepoType::MainRepo { home_branch } => home_branch.as_str(),
            RepoType::Worktree { home_branch } => home_branch.as_str(),
        }
    }

    /// Whether `branch` is protected from deletion.
    pub fn is_protected(&self, branch: &str) -> (r: bool)
        ensures
            r == self.protects(branch@),
    {
        if str_eq(branch, "main") || str_eq(branch, "master") {
            return true;
        }
        str_eq(branch, self.home_branch())
    }
}

} // verus!
