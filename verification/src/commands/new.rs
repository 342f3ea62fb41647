//! `gw new`: create a branch whose base is never ambiguous.
//!
//! A base is chosen only where exactly one makes sense: from the home branch
//! a new branch starts at the fetched default remote branch; from any other
//! branch `--stack` must say that the current branch is the base. With
//! uncommitted changes the start point is the current `HEAD`, so creating
//! the branch never merges into the working tree.

use vstd::prelude::*;

use crate::error::{GwError, GwErrorView};
use crate::text::{cat, cat3, strings_view};

verus! {

/// Where a new branch starts.
#[derive(Debug, Clone, Copy, PartialEq, Eq, Structural)]
pub enum NewBase {
    /// Stacked on the current branch (`--stack`), recorded as its parent.
    Stack,
    /// From the home branch with a clean tree: at the fetched default remote branch.
    Fresh,
    /// From the home branch with changes: at the current `HEAD`, carrying them.
    CarryDirty,
}

/// The refusal of `--stack` on the home branch.
pub open spec fn stack_on_home_error() -> GwErrorView {
    GwErrorView::Other("--stack requires a non-home current branch"@)
}

/// The refusal of a plain `gw new` away from the home branch.
pub open spec fn ambiguous_base_error() -> GwErrorView {
    GwErrorView::Other("gw new outside the home branch needs --stack (or run gw home first)"@)
}

/// The base a new branch gets, or why none can be chosen.
pub open spec fn new_base_view(stack: bool, on_home: bool, dirty: bool) -> Result<NewBase, GwErrorView> {
    if stack && on_home {
        Err(stack_on_home_error())
    } else if !stack && !on_home {
        Err(ambiguous_base_error())
    } else if stack {
        Ok(NewBase::Stack)
    } else if dirty {
        Ok(NewBase::CarryDirty)
    } else {
        Ok(NewBase::Fresh)
    }
}

/// Choose the base of a new branch: `--stack` only off the home branch,
/// plain only on it; with changes on the home branch, the current `HEAD`.
pub fn choose_new_base(stack: bool, on_home: bool, dirty: bool) -> (r: Result<NewBase, GwError>)
    ensures
        match new_base_view(stack, on_home, dirty) {
            Ok(b) => r matches Ok(x) && x == b,
            Err(e) => r matches Err(x) && x@ == e,
        },
{
    if stack && on_home {
        return Err(GwError::Other("--stack requires a non-home current branch".to_string()));
    }
    if !stack && !on_home {
        return Err(GwError::Other("gw new outside the home branch needs --stack (or run gw home first)".to_string()));
    }
    if stack {
        Ok(NewBase::Stack)
    } else if dirty {
        Ok(NewBase::CarryDirty)
    } else {
        Ok(NewBase::Fresh)
    }
}

/// The start point of a new branch with base `b`.
pub open spec fn start_point_view(b: NewBase, current: Seq<char>, default_remote: Seq<char>) -> Seq<char> {
    match b {
        NewBase::Fresh => default_remote,
        _ => current,
    }
}

/// The start point of a new branch: the default remote branch for a fresh
/// one, the current branch otherwise.
pub fn start_point(b: NewBase, current: &str, default_remote: &str) -> (r: String)
    ensures
        r@ == start_point_view(b, current@, default_remote@),
{
    match b {
        NewBase::Fresh => default_remote.to_string(),
        _ => current.to_string(),
    }
}

/// A base is chosen only when it is unambiguous (`--stack` exactly when
/// off the home branch); uncommitted work always starts from the current
/// `HEAD`, so creating the branch never merges; and only a stacked branch
/// records a parent.
pub proof fn lemma_new_base_unambiguous(stack: bool, on_home: bool, dirty: bool, current: Seq<char>, remote: Seq<char>)
    ensures
        new_base_view(stack, on_home, dirty) is Ok ==> stack == !on_home,
        dirty ==> (new_base_view(stack, on_home, dirty) matches Ok(b) ==> start_point_view(b, current, remote)
            == current),
        new_base_view(stack, on_home, dirty) matches Ok(b) ==> (b is Stack <==> stack),
{
}

/// The next steps after creating a branch: commit, catch up when the local
/// default branch lagged, push, and open a pull request (against the parent
/// when stacked).
pub open spec fn new_hint_lines_view(branch: Seq<char>, behind: bool, pr_base: Option<Seq<char>>) -> Seq<Seq<char>> {
    let first: Seq<Seq<char>> = seq![
        "# Make changes, then:"@,
        "git add <files> && git commit -m \"feat: description\""@,
    ];
    let sync: Seq<Seq<char>> = if behind {
        seq!["gw sync  # local main was behind; catch up"@]
    } else {
        seq![]
    };
    let last: Seq<Seq<char>> = seq![
        "git push -u origin "@ + branch,
        match pr_base {
            Some(base) => "gh pr create -a \"@me\" -B "@ + base + " -t \"Title\""@,
            None => "gh pr create -a \"@me\" -t \"Title\""@,
        },
    ];
    first + sync + last
}

/// The next steps shown after `gw new`.
pub fn new_hint_lines(branch: &str, behind_count: usize, pr_base: Option<&str>) -> (r: Vec<String>)
    ensures
        strings_view(r@) == new_hint_lines_view(
            branch@,
            behind_count > 0,
            match pr_base {
                Some(b) => Some(b@),
                None => None,
            },
        ),
{
    let mut v: Vec<String> = Vec::new();
    v.push("# Make changes, then:".to_string());
    v.push("git add <files> && git commit -m \"feat: description\"".to_string());
    if behind_count > 0 {
        v.push("gw sync  # local main was behind; catch up".to_string());
    }
    v.push(cat("git push -u origin ", branch));
    match pr_base {
        Some(base) => v.push(cat3("gh pr create -a \"@me\" -B ", base, " -t \"Title\"")),
        None => v.push("gh pr create -a \"@me\" -t \"Title\"".to_string()),
    }
    let ghost expected = new_hint_lines_view(
        branch@,
        behind_count > 0,
        match pr_base {
            Some(b) => Some(b@),
            None => None,
        },
    );
    assert(strings_view(v@) =~= expected);
    v
}

} // verus!
