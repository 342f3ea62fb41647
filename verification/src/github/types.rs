//! What the library knows of a pull request.

use vstd::prelude::*;

use crate::error::opt_view;

verus! {

/// How a pull request was merged.
#[derive(Debug, Clone, Copy, PartialEq, Eq, Structural)]
pub enum MergeMethod {
    /// A merge commit with two parents.
    Merge,
    /// Squash and merge.
    Squash,
    /// Rebase and merge.
    Rebase,
}

/// The word that names a merge method.
pub open spec fn merge_method_name(m: MergeMethod) -> Seq<char> {
    match m {
        MergeMethod::Merge => "merge"@,
        MergeMethod::Squash => "squash"@,
        MergeMethod::Rebase => "rebase"@,
    }
}

impl MergeMethod {
    /// The word that names this merge method.
    pub fn to_string(&self) -> (r: String)
        ensures
            r@ == merge_method_name(*self),
    {
        match self {
            MergeMethod::Merge => "merge".to_string(),
            MergeMethod::Squash => "squash".to_string(),
            MergeMethod::Rebase => "rebase".to_string(),
        }
    }
}

/// The state of a pull request.
#[derive(Debug, Clone, PartialEq, Eq)]
pub enum PrState {
    Open,
    Merged {
        /// How the pull request was merged.
        method: MergeMethod,
        /// The merge (or squash) commit, when GitHub reports one.
        merge_commit: Option<String>,
    },
    /// Closed without merging.
    Closed,
}

/// A pull request's state with texts as character sequences.
pub enum PrStateView {
    Open,
    Merged { method: MergeMethod, merge_commit: Option<Seq<char>> },
    Closed,
}

impl View for PrState {
    type V = PrStateView;

    open spec fn view(&self) -> PrStateView {
        match self {
            PrState::Open => PrStateView::Open,
            PrState::Merged { method, merge_commit } => PrStateView::Merged {
                method: *method,
                merge_commit: opt_view(*merge_commit),
            },
            PrState::Closed => PrStateView::Closed,
        }
    }
}

impl PrState {
    /// Whether the pull request was merged.
    pub fn is_merged(&self) -> (r: bool)
        ensures
            r == (self@ is Merged),
    {
        match self {
            PrState::Merged { .. } => true,
            _ => false,
        }
    }

    /// Whether the pull request is open.
    pub fn is_open(&self) -> (r: bool)
        ensures
            r == (self@ is Open),
    {
        match self {
            PrState::Open => true,
            _ => false,
        }
    }

    /// Whether the pull request was closed without merging.
    pub fn is_closed(&self) -> (r: bool)
        ensures
            r == (self@ is Closed),
    {
        match self {
            PrState::Closed => true,
            _ => false,
        }
    }
}

/// A pull request associated with a branch.
#[derive(Debug, Clone)]
pub struct PrInfo {
    pub number: u64,
    pub title: String,
    pub url: String,
    pub state: PrState,
    /// The branch the pull request targets, such as `main`.
    pub base_branch: String,
    /// The pull request's own branch.
    pub head_branch: String,
}

/// A pull request with texts as character sequences.
pub struct PrInfoView {
    pub number: u64,
    pub title: Seq<char>,
    pub url: Seq<char>,
    pub state: PrStateView,
    pub base_branch: Seq<char>,
    pub head_branch: Seq<char>,
}

impl View for PrInfo {
    type V = PrInfoView;

    open spec fn view(&self) -> PrInfoView {
        PrInfoView {
            number: self.number,
            title: self.title@,
            url: self.url@,
            state: self.state@,
            base_branch: self.base_branch@,
            head_branch: self.head_branch@,
        }
    }
}

impl PrInfo {
    /// A pull request whose head branch is left empty.
    pub fn new(number: u64, title: &str, url: &str, state: PrState, base_branch: &str) -> (r: Self)
        ensures
            r@ == (PrInfoView {
                number,
                title: title@,
                url: url@,
                state: state@,
                base_branch: base_branch@,
                head_branch: Seq::empty(),
            }),
    {
        let head = String::new();
        PrInfo {
            number,
            title: title.to_string(),
            url: url.to_string(),
            state,
            base_branch: base_branch.to_string(),
            head_branch: head,
        }
    }
}

/// The fields of `gh pr view --json` output, before the merge method is known.
#[derive(Debug, Clone)]
pub struct RawPrData {
    pub number: u64,
    pub title: String,
    pub url: String,
    pub state: String,
    pub base_branch: String,
    pub head_branch: String,
    pub merge_commit: Option<String>,
}

/// Raw pull request fields with texts as character sequences.
pub struct RawPrDataView {
    pub number: u64,
    pub title: Seq<char>,
    pub url: Seq<char>,
    pub state: Seq<char>,
    pub base_branch: Seq<char>,
    pub head_branch: Seq<char>,
    pub merge_commit: Option<Seq<char>>,
}

impl View for RawPrData {
    type V = RawPrDataView;

    open spec fn view(&self) -> RawPrDataView {
        RawPrDataView {
            number: self.number,
            title: self.title@,
            url: self.url@,
            state: self.state@,
            base_branch: self.base_branch@,
            head_branch: self.head_branch@,
            merge_commit: opt_view(self.merge_commit),
        }
    }
}

} // verus!
