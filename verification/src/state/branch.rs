//! Branches that carry in their type whether they may be deleted.

use std::marker::PhantomData;

use vstd::prelude::*;

use crate::error::{GwError, GwErrorView};
use crate::git::{ran_git, run_view, unit_view};
use crate::github::client::CommandExecutor;
use crate::state::repo::RepoType;

verus! {

/// Marker for `main`, `master` and the home branch.
pub struct Protected;

/// Marker for a branch that may be deleted.
pub struct Deletable;

/// A branch whose deletability is part of its type.
#[derive(Debug)]
pub struct Branch<Status> {
    name: String,
    _status: PhantomData<Status>,
}

impl<S> Branch<S> {
    /// The branch's name, as a character sequence.
    pub closed spec fn name_view(&self) -> Seq<char> {
        self.name@
    }

    /// The branch's name.
    pub fn name(&self) -> (r: &str)
        ensures
            r@ == self.name_view(),
    {
        self.name.as_str()
    }
}

impl Branch<Protected> {
    /// A branch that may not be deleted.
    pub fn protected(name: String) -> (r: Self)
        ensures
            r.name_view() == name@,
    {
        Branch { name, _status: PhantomData }
    }
}

impl Branch<Deletable> {
    /// A branch that may be deleted.
    pub fn deletable(name: String) -> (r: Self)
        ensures
            r.name_view() == name@,
    {
        Branch { name, _status: PhantomData }
    }

    /// Delete this branch safely (`git branch -d`, which refuses a branch
    /// that is not fully merged). Only a deletable branch offers this.
    pub fn delete<E: CommandExecutor>(self, exec: &mut E) -> (r: Result<(), GwError>)
        ensures
            ran_git(old(exec).history(), final(exec).history(), seq!["branch"@, "-d"@, self.name_view()]),
            unit_view(r) == run_view(final(exec).history().last().result),
    {
        crate::git::mutation::delete_branch(exec, self.name.as_str())
    }
}

/// A branch sorted by whether it may be deleted.
pub enum BranchClassification {
    Protected(Branch<Protected>),
    Deletable(Branch<Deletable>),
}

impl BranchClassification {
    /// The branch's name, whatever its class.
    pub open spec fn name_view(&self) -> Seq<char> {
        match self {
            BranchClassification::Protected(b) => b.name_view(),
            BranchClassification::Deletable(b) => b.name_view(),
        }
    }

    /// The branch's name.
    pub fn name(&self) -> (r: &str)
        ensures
            r@ == self.name_view(),
    {
        match self {
            BranchClassification::Protected(b) => b.name(),
            BranchClassification::Deletable(b) => b.name(),
        }
    }

    /// The deletable branch, or `ProtectedBranch` naming a protected one.
    pub fn try_deletable(self) -> (r: Result<Branch<Deletable>, GwError>)
        ensures
            self is Deletable <==> r is Ok,
            r matches Ok(b) ==> b.name_view() == self.name_view(),
            r matches Err(e) ==> e@ == GwErrorView::ProtectedBranch(self.name_view()),
    {
        match self {
            BranchClassification::Protected(b) => Err(GwError::ProtectedBranch(b.name().to_string())),
            BranchClassification::Deletable(b) => Ok(b),
        }
    }
}

/// Sort a branch: protected when the repository protects it, deletable otherwise.
pub fn classify_branch(branch: &str, repo_type: &RepoType) -> (r: BranchClassification)
    ensures
        r.name_view() == branch@,
        r is Protected <==> repo_type.protects(branch@),
{
    if repo_type.is_protected(branch) {
        BranchClassification::Protected(Branch::protected(branch.to_string()))
    } else {
        BranchClassification::Deletable(Branch::deletable(branch.to_string()))
    }
}

/// No protected branch can be deleted: classifying a branch and asking for it
/// as deletable fails, naming the branch, exactly when the repository protects
/// it; `main`, `master` and the home branch are always protected.
pub proof fn lemma_protected_never_deletable(repo_type: RepoType, branch: Seq<char>)
    ensures
        repo_type.protects("main"@),
        repo_type.protects("master"@),
        repo_type.protects(repo_type.home_view()),
        forall|c: BranchClassification|
            c.name_view() == branch && (c is Protected <==> repo_type.protects(branch)) ==> (
            c is Deletable <==> !repo_type.protects(branch)),
{
}

} // verus!
