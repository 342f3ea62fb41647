//! The next step to recommend for the repository's state.

use vstd::prelude::*;

use crate::github::types::{PrInfo, PrInfoView};
use crate::state::sync::SyncState;
use crate::state::working_dir::WorkingDirState;
use crate::output::{action, marked_view, BOLD, SEPARATOR};
use crate::text::{cat, cat3, decimal_view, str_eq, strings_view, u64_to_decimal};

verus! {

/// The step that the repository's state calls for.
#[derive(Debug, Clone, PartialEq, Eq)]
pub enum NextAction {
    /// On the home branch, ready for new work.
    StartNewWork,
    /// On the home branch but behind its upstream.
    SyncHomeWithUpstream { behind_count: usize },
    /// Uncommitted changes to commit.
    CommitChanges,
    /// Commits to push.
    PushChanges,
    /// Pushed without a pull request; `base` is the stacked parent to pass as
    /// `-B`, or `None` for the default branch.
    CreatePr { base: Option<String> },
    /// The pull request is open.
    WaitingForReview { pr_number: u64 },
    /// The pull request was merged.
    Cleanup,
    /// Behind upstream.
    RebaseNeeded,
    /// Ahead of and behind upstream.
    ResolveDivergence,
    /// The pull request was closed without merging.
    PrClosed { pr_number: u64 },
    /// The base branch's pull request merged: restack.
    SyncNeeded { base_branch: String },
    /// The recorded stacked base merged before this branch had a pull request.
    StackedBaseMerged { base_branch: String },
}

/// A next action with texts as character sequences.
pub enum NextActionView {
    StartNewWork,
    SyncHomeWithUpstream { behind_count: usize },
    CommitChanges,
    PushChanges,
    CreatePr { base: Option<Seq<char>> },
    WaitingForReview { pr_number: u64 },
    Cleanup,
    RebaseNeeded,
    ResolveDivergence,
    PrClosed { pr_number: u64 },
    SyncNeeded { base_branch: Seq<char> },
    StackedBaseMerged { base_branch: Seq<char> },
}

impl View for NextAction {
    type V = NextActionView;

    open spec fn view(&self) -> NextActionView {
        match self {
            NextAction::StartNewWork => NextActionView::StartNewWork,
            NextAction::SyncHomeWithUpstream { behind_count } => NextActionView::SyncHomeWithUpstream {
                behind_count: *behind_count,
            },
            NextAction::CommitChanges => NextActionView::CommitChanges,
            NextAction::PushChanges => NextActionView::PushChanges,
            NextAction::CreatePr { base } => NextActionView::CreatePr {
                base: crate::error::opt_view(*base),
            },
            NextAction::WaitingForReview { pr_number } => NextActionView::WaitingForReview {
                pr_number: *pr_number,
            },
            NextAction::Cleanup => NextActionView::Cleanup,
            NextAction::RebaseNeeded => NextActionView::RebaseNeeded,
            NextAction::ResolveDivergence => NextActionView::ResolveDivergence,
            NextAction::PrClosed { pr_number } => NextActionView::PrClosed { pr_number: *pr_number },
            NextAction::SyncNeeded { base_branch } => NextActionView::SyncNeeded {
                base_branch: base_branch@,
            },
            NextAction::StackedBaseMerged { base_branch } => NextActionView::StackedBaseMerged {
                base_branch: base_branch@,
            },
        }
    }
}

/// The signals that decide the next action.
pub struct DetectContext<'a> {
    pub current_branch: &'a str,
    pub home_branch: &'a str,
    pub working_dir: &'a WorkingDirState,
    pub sync_state: &'a SyncState,
    pub pr_info: Option<&'a PrInfo>,
    pub has_remote: bool,
    /// This branch's pull request's base branch, when that base's pull request merged.
    pub base_pr_merged: Option<&'a str>,
    /// The locally recorded stacked parent, when it is a real parent.
    pub recorded_base: Option<&'a str>,
    /// The recorded parent's pull request has merged.
    pub recorded_base_merged: bool,
}

/// The view of an optional text reference.
pub open spec fn opt_str_view(o: Option<&str>) -> Option<Seq<char>> {
    match o {
        Some(s) => Some(s@),
        None => None,
    }
}

/// The view of an optional pull request reference.
pub open spec fn opt_pr_view(o: Option<&PrInfo>) -> Option<PrInfoView> {
    match o {
        Some(p) => Some(p@),
        None => None,
    }
}

/// The recommended action, by priority: the home branch first; then a merged
/// or closed pull request; then a merged base; then uncommitted work;
/// divergence; being behind; unpushed work; a missing pull request; review.
pub open spec fn next_action_for(
    current: Seq<char>,
    home: Seq<char>,
    working_dir: WorkingDirState,
    sync_state: SyncState,
    pr: Option<PrInfoView>,
    has_remote: bool,
    base_pr_merged: Option<Seq<char>>,
    recorded_base: Option<Seq<char>>,
    recorded_base_merged: bool,
) -> NextActionView {
    if current == home {
        match sync_state {
            SyncState::Behind { count } => NextActionView::SyncHomeWithUpstream { behind_count: count },
            _ => NextActionView::StartNewWork,
        }
    } else if pr is Some && pr->0.state is Merged {
        NextActionView::Cleanup
    } else if pr is Some && pr->0.state is Closed {
        NextActionView::PrClosed { pr_number: pr->0.number }
    } else if base_pr_merged is Some {
        NextActionView::SyncNeeded { base_branch: base_pr_merged->0 }
    } else if !(working_dir is Clean) {
        NextActionView::CommitChanges
    } else if sync_state is Diverged {
        NextActionView::ResolveDivergence
    } else if sync_state is Behind {
        NextActionView::RebaseNeeded
    } else if sync_state is HasUnpushedCommits || sync_state is NoUpstream {
        NextActionView::PushChanges
    } else if pr is None && has_remote {
        if recorded_base_merged && recorded_base is Some {
            NextActionView::StackedBaseMerged { base_branch: recorded_base->0 }
        } else {
            NextActionView::CreatePr { base: recorded_base }
        }
    } else if pr is Some && pr->0.state is Open {
        NextActionView::WaitingForReview { pr_number: pr->0.number }
    } else {
        NextActionView::WaitingForReview { pr_number: 0 }
    }
}

/// The recommended action for a detection context.
pub open spec fn detect_view(ctx: &DetectContext) -> NextActionView {
    next_action_for(
        ctx.current_branch@,
        ctx.home_branch@,
        *ctx.working_dir,
        *ctx.sync_state,
        opt_pr_view(ctx.pr_info),
        ctx.has_remote,
        opt_str_view(ctx.base_pr_merged),
        opt_str_view(ctx.recorded_base),
        ctx.recorded_base_merged,
    )
}

/// The short description of an action.
pub open spec fn short_description_view(a: NextActionView) -> Seq<char> {
    match a {
        NextActionView::StartNewWork => "start new work"@,
        NextActionView::SyncHomeWithUpstream { .. } => "sync with upstream"@,
        NextActionView::CommitChanges => "commit changes"@,
        NextActionView::PushChanges => "push to remote"@,
        NextActionView::CreatePr { .. } => "create PR"@,
        NextActionView::WaitingForReview { .. } => "waiting for review"@,
        NextActionView::Cleanup => "cleanup branch"@,
        NextActionView::RebaseNeeded => "rebase needed"@,
        NextActionView::ResolveDivergence => "resolve divergence"@,
        NextActionView::PrClosed { .. } => "PR closed"@,
        NextActionView::SyncNeeded { .. } => "sync needed"@,
        NextActionView::StackedBaseMerged { .. } => "rebase (base merged)"@,
    }
}

/// `msg` as an action line.
pub open spec fn action_view(msg: Seq<char>) -> Seq<char> {
    marked_view(BOLD@, "→"@, msg)
}

/// The lines that explain an action and its commands, between the separators.
pub open spec fn display_body_view(a: NextActionView, branch: Seq<char>) -> Seq<Seq<char>> {
    match a {
        NextActionView::StartNewWork => seq![
            action_view("Next: start new work"@),
            Seq::empty(),
            "  gw new feature/your-feature"@,
        ],
        NextActionView::SyncHomeWithUpstream { behind_count } => seq![
            action_view("Next: sync with upstream ("@ + decimal_view(behind_count as nat) + " commit(s) behind)"@),
            Seq::empty(),
            "  gw home"@,
        ],
        NextActionView::CommitChanges => seq![
            action_view("Next: commit changes"@),
            Seq::empty(),
            "  git add <files> && git commit -m \"feat: ...\"  # stage deliberately, not -A"@,
        ],
        NextActionView::PushChanges => seq![
            action_view("Next: push to remote"@),
            Seq::empty(),
            "  git push -u origin "@ + branch,
        ],
        NextActionView::CreatePr { base } => seq![
            action_view("Next: create pull request"@),
            Seq::empty(),
            match base {
                Some(b) => "  gh pr create -a \"@me\" -B "@ + b + " -t \"...\"  # stacked on "@ + b,
                None => "  gh pr create -a \"@me\" -t \"...\""@,
            },
        ],
        NextActionView::WaitingForReview { pr_number } => if pr_number > 0 {
            seq![
                action_view("Waiting: PR #"@ + decimal_view(pr_number as nat) + " in review"@),
                Seq::empty(),
                "  gw await "@ + decimal_view(pr_number as nat) + " --open  # Wait for merge, then cleanup"@,
                "  gw open             # Open PR in browser"@,
            ]
        } else {
            seq![
                action_view("Waiting: PR in review"@),
                Seq::empty(),
                "  gw open  # Open PR in browser"@,
            ]
        },
        NextActionView::Cleanup => seq![
            action_view("Next: cleanup merged branch"@),
            Seq::empty(),
            "  gw cleanup"@,
        ],
        NextActionView::RebaseNeeded => seq![
            action_view("Next: rebase on latest main"@),
            Seq::empty(),
            "  git fetch --prune && git rebase origin/main"@,
        ],
        NextActionView::ResolveDivergence => seq![
            action_view("Next: resolve divergence"@),
            Seq::empty(),
            "  # Option 1: Rebase (preferred)"@,
            "  git fetch --prune && git rebase origin/main"@,
            Seq::empty(),
            "  # Option 2: Force push (if you know what you're doing)"@,
            "  git push --force-with-lease"@,
        ],
        NextActionView::PrClosed { pr_number } => seq![
            action_view("PR #"@ + decimal_view(pr_number as nat) + " was closed without merging"@),
            Seq::empty(),
            "  # Option 1: Reopen the PR"@,
            "  gh pr reopen "@ + decimal_view(pr_number as nat),
            Seq::empty(),
            "  # Option 2: Cleanup and start fresh"@,
            "  gw cleanup"@,
        ],
        NextActionView::SyncNeeded { base_branch } => seq![
            action_view("Next: sync (base '"@ + base_branch + "' was merged)"@),
            Seq::empty(),
            "  gw sync"@,
        ],
        NextActionView::StackedBaseMerged { base_branch } => seq![
            action_view("Next: base '"@ + base_branch + "' merged — rebase onto main"@),
            Seq::empty(),
            "  git fetch --prune"@,
            "  git rebase --onto origin/main "@ + base_branch + "  # replay only your commits"@,
            "  # then open a normal PR (base is now main):"@,
            "  gh pr create -a \"@me\" -t \"...\""@,
        ],
    }
}

/// All the lines that present an action: a blank line, a separator, the
/// explanation and its commands, and a closing separator.
pub open spec fn display_view(a: NextActionView, branch: Seq<char>) -> Seq<Seq<char>> {
    seq![Seq::empty(), SEPARATOR@] + display_body_view(a, branch) + seq![SEPARATOR@]
}

impl NextAction {
    /// The action that the context calls for.
    pub fn detect(ctx: &DetectContext) -> (r: Self)
        ensures
            r@ == detect_view(ctx),
    {
        if str_eq(ctx.current_branch, ctx.home_branch) {
            if let SyncState::Behind { count } = ctx.sync_state {
                return NextAction::SyncHomeWithUpstream { behind_count: *count };
            }
            return NextAction::StartNewWork;
        }
        if let Some(pr) = ctx.pr_info {
            if pr.state.is_merged() {
                return NextAction::Cleanup;
            }
            if pr.state.is_closed() {
                return NextAction::PrClosed { pr_number: pr.number };
            }
        }
        if let Some(base_branch) = ctx.base_pr_merged {
            return NextAction::SyncNeeded { base_branch: base_branch.to_string() };
        }
        if !ctx.working_dir.is_clean() {
            return NextAction::CommitChanges;
        }
        match ctx.sync_state {
            SyncState::Diverged { .. } => {
                return NextAction::ResolveDivergence;
            },
            SyncState::Behind { .. } => {
                return NextAction::RebaseNeeded;
            },
            SyncState::HasUnpushedCommits { .. } => {
                return NextAction::PushChanges;
            },
            SyncState::NoUpstream => {
                return NextAction::PushChanges;
            },
            SyncState::Synced => {},
        }
        if ctx.pr_info.is_none() && ctx.has_remote {
            if ctx.recorded_base_merged {
                if let Some(base) = ctx.recorded_base {
                    return NextAction::StackedBaseMerged { base_branch: base.to_string() };
                }
            }
            let base = match ctx.recorded_base {
                Some(b) => Some(b.to_string()),
                None => None,
            };
            return NextAction::CreatePr { base };
        }
        if let Some(pr) = ctx.pr_info {
            if pr.state.is_open() {
                return NextAction::WaitingForReview { pr_number: pr.number };
            }
        }
        NextAction::WaitingForReview { pr_number: 0 }
    }


    /// The lines that present this action and the commands that carry it out
    /// on `branch`.
    pub fn display(&self, branch: &str) -> (r: Vec<String>)
        ensures
            strings_view(r@) == display_view(self@, branch@),
    {
        let mut v: Vec<String> = Vec::new();
        v.push(String::new());
        v.push(SEPARATOR.to_string());
        let ghost start = strings_view(v@);
        match self {
            NextAction::StartNewWork => {
                v.push(action("Next: start new work"));
                v.push(String::new());
                v.push("  gw new feature/your-feature".to_string());
            },
            NextAction::SyncHomeWithUpstream { behind_count } => {
                let d = u64_to_decimal(*behind_count as u64);
                let m = cat3("Next: sync with upstream (", d.as_str(), " commit(s) behind)");
                v.push(action(m.as_str()));
                v.push(String::new());
                v.push("  gw home".to_string());
            },
            NextAction::CommitChanges => {
                v.push(action("Next: commit changes"));
                v.push(String::new());
                v.push(
                    "  git add <files> && git commit -m \"feat: ...\"  # stage deliberately, not -A".to_string(),
                );
            },
            NextAction::PushChanges => {
                v.push(action("Next: push to remote"));
                v.push(String::new());
                v.push(cat("  git push -u origin ", branch));
            },
            NextAction::CreatePr { base } => {
                v.push(action("Next: create pull request"));
                v.push(String::new());
                match base {
                    Some(b) => {
                        let head = cat3("  gh pr create -a \"@me\" -B ", b.as_str(), " -t \"...\"  # stacked on ");
                        v.push(cat(head.as_str(), b.as_str()));
                    },
                    None => {
                        v.push("  gh pr create -a \"@me\" -t \"...\"".to_string());
                    },
                }
            },
            NextAction::WaitingForReview { pr_number } => {
                if *pr_number > 0 {
                    let d = u64_to_decimal(*pr_number);
                    let m = cat3("Waiting: PR #", d.as_str(), " in review");
                    v.push(action(m.as_str()));
                    v.push(String::new());
                    v.push(cat3("  gw await ", d.as_str(), " --open  # Wait for merge, then cleanup"));
                    v.push("  gw open             # Open PR in browser".to_string());
                } else {
                    v.push(action("Waiting: PR in review"));
                    v.push(String::new());
                    v.push("  gw open  # Open PR in browser".to_string());
                }
            },
            NextAction::Cleanup => {
                v.push(action("Next: cleanup merged branch"));
                v.push(String::new());
                v.push("  gw cleanup".to_string());
            },
            NextAction::RebaseNeeded => {
                v.push(action("Next: rebase on latest main"));
                v.push(String::new());
                v.push("  git fetch --prune && git rebase origin/main".to_string());
            },
            NextAction::ResolveDivergence => {
                v.push(action("Next: resolve divergence"));
                v.push(String::new());
                v.push("  # Option 1: Rebase (preferred)".to_string());
                v.push("  git fetch --prune && git rebase origin/main".to_string());
                v.push(String::new());
                v.push("  # Option 2: Force push (if you know what you're doing)".to_string());
                v.push("  git push --force-with-lease".to_string());
            },
            NextAction::PrClosed { pr_number } => {
                let d = u64_to_decimal(*pr_number);
                let m = cat3("PR #", d.as_str(), " was closed without merging");
                v.push(action(m.as_str()));
                v.push(String::new());
                v.push("  # Option 1: Reopen the PR".to_string());
                v.push(cat("  gh pr reopen ", d.as_str()));
                v.push(String::new());
                v.push("  # Option 2: Cleanup and start fresh".to_string());
                v.push("  gw cleanup".to_string());
            },
            NextAction::SyncNeeded { base_branch } => {
                let m = cat3("Next: sync (base '", base_branch.as_str(), "' was merged)");
                v.push(action(m.as_str()));
                v.push(String::new());
                v.push("  gw sync".to_string());
            },
            NextAction::StackedBaseMerged { base_branch } => {
                let m = cat3("Next: base '", base_branch.as_str(), "' merged — rebase onto main");
                v.push(action(m.as_str()));
                v.push(String::new());
                v.push("  git fetch --prune".to_string());
                v.push(
                    cat3(
                        "  git rebase --onto origin/main ",
                        base_branch.as_str(),
                        "  # replay only your commits",
                    ),
                );
                v.push("  # then open a normal PR (base is now main):".to_string());
                v.push("  gh pr create -a \"@me\" -t \"...\"".to_string());
            },
        }
        let ghost mid = strings_view(v@);
        v.push(SEPARATOR.to_string());
        proof {
            assert(strings_view(v@) =~= mid.push(SEPARATOR@));
            assert(mid =~= start + display_body_view(self@, branch@));
            assert(strings_view(v@) =~= display_view(self@, branch@));
        }
        v
    }

    /// A short description of the action.
    pub fn short_description(&self) -> (r: &'static str)
        ensures
            r@ == short_description_view(self@),
    {
        match self {
            NextAction::StartNewWork => "start new work",
            NextAction::SyncHomeWithUpstream { .. } => "sync with upstream",
            NextAction::CommitChanges => "commit changes",
            NextAction::PushChanges => "push to remote",
            NextAction::CreatePr { .. } => "create PR",
            NextAction::WaitingForReview { .. } => "waiting for review",
            NextAction::Cleanup => "cleanup branch",
            NextAction::RebaseNeeded => "rebase needed",
            NextAction::ResolveDivergence => "resolve divergence",
            NextAction::PrClosed { .. } => "PR closed",
            NextAction::SyncNeeded { .. } => "sync needed",
            NextAction::StackedBaseMerged { .. } => "rebase (base merged)",
        }
    }
}

/// On the home branch the only recommendations are to start new work or to
/// catch up with the upstream, whatever the rest of the state.
pub proof fn lemma_home_branch_starts_or_syncs(
    home: Seq<char>,
    working_dir: WorkingDirState,
    sync_state: SyncState,
    pr: Option<PrInfoView>,
    has_remote: bool,
    base_pr_merged: Option<Seq<char>>,
    recorded_base: Option<Seq<char>>,
    recorded_base_merged: bool,
)
    ensures
        ({
            let a = next_action_for(
                home,
                home,
                working_dir,
                sync_state,
                pr,
                has_remote,
                base_pr_merged,
                recorded_base,
                recorded_base_merged,
            );
            a is StartNewWork || a is SyncHomeWithUpstream
        }),
{
}

/// Off the home branch, a merged pull request always leads to cleanup, ahead
/// of uncommitted changes, a merged base or anything else.
pub proof fn lemma_merged_pr_means_cleanup(
    current: Seq<char>,
    home: Seq<char>,
    working_dir: WorkingDirState,
    sync_state: SyncState,
    pr: PrInfoView,
    has_remote: bool,
    base_pr_merged: Option<Seq<char>>,
    recorded_base: Option<Seq<char>>,
    recorded_base_merged: bool,
)
    requires
        current != home,
        pr.state is Merged,
    ensures
        next_action_for(
            current,
            home,
            working_dir,
            sync_state,
            Some(pr),
            has_remote,
            base_pr_merged,
            recorded_base,
            recorded_base_merged,
        ) is Cleanup,
{
}

/// Off the home branch and with no merged or closed pull request, a merged
/// base always asks for a restack of that base, even over uncommitted work.
pub proof fn lemma_merged_base_means_sync(
    current: Seq<char>,
    home: Seq<char>,
    working_dir: WorkingDirState,
    sync_state: SyncState,
    pr: Option<PrInfoView>,
    has_remote: bool,
    base: Seq<char>,
    recorded_base: Option<Seq<char>>,
    recorded_base_merged: bool,
)
    requires
        current != home,
        !(pr is Some && (pr->0.state is Merged || pr->0.state is Closed)),
    ensures
        next_action_for(
            current,
            home,
            working_dir,
            sync_state,
            pr,
            has_remote,
            Some(base),
            recorded_base,
            recorded_base_merged,
        ) == (NextActionView::SyncNeeded { base_branch: base }),
{
}

/// Off the home branch, with no merged or closed pull request and no merged
/// base, uncommitted changes are always dealt with first.
pub proof fn lemma_dirty_means_commit(
    current: Seq<char>,
    home: Seq<char>,
    working_dir: WorkingDirState,
    sync_state: SyncState,
    pr: Option<PrInfoView>,
    has_remote: bool,
    recorded_base: Option<Seq<char>>,
    recorded_base_merged: bool,
)
    requires
        current != home,
        !(pr is Some && (pr->0.state is Merged || pr->0.state is Closed)),
        !(working_dir is Clean),
    ensures
        next_action_for(
            current,
            home,
            working_dir,
            sync_state,
            pr,
            has_remote,
            None,
            recorded_base,
            recorded_base_merged,
        ) is CommitChanges,
{
}

/// Off the home branch, with no merged or closed pull request, no merged
/// base and a clean working tree, a branch with commits its upstream lacks
/// (or with no upstream at all) is always to be pushed, whatever the state of
/// its open pull request.
pub proof fn lemma_unpushed_means_push(
    current: Seq<char>,
    home: Seq<char>,
    sync_state: SyncState,
    pr: Option<PrInfoView>,
    has_remote: bool,
    recorded_base: Option<Seq<char>>,
    recorded_base_merged: bool,
)
    requires
        current != home,
        !(pr is Some && (pr->0.state is Merged || pr->0.state is Closed)),
        sync_state is HasUnpushedCommits || sync_state is NoUpstream,
    ensures
        next_action_for(
            current,
            home,
            WorkingDirState::Clean,
            sync_state,
            pr,
            has_remote,
            None,
            recorded_base,
            recorded_base_merged,
        ) is PushChanges,
{
}

/// Off the home branch, with no merged or closed pull request, no merged
/// base and a clean working tree: a branch that diverged from its upstream
/// is to be reconciled, and one that is only behind is to be rebased.
pub proof fn lemma_diverged_or_behind(
    current: Seq<char>,
    home: Seq<char>,
    sync_state: SyncState,
    pr: Option<PrInfoView>,
    has_remote: bool,
    recorded_base: Option<Seq<char>>,
    recorded_base_merged: bool,
)
    requires
        current != home,
        !(pr is Some && (pr->0.state is Merged || pr->0.state is Closed)),
    ensures
        ({
            let a = next_action_for(
                current,
                home,
                WorkingDirState::Clean,
                sync_state,
                pr,
                has_remote,
                None,
                recorded_base,
                recorded_base_merged,
            );
            &&& sync_state is Diverged ==> a is ResolveDivergence
            &&& sync_state is Behind ==> a is RebaseNeeded
        }),
{
}

/// Off the home branch, a closed (unmerged) pull request is always reported
/// as closed, with its number.
pub proof fn lemma_closed_pr_reported(
    current: Seq<char>,
    home: Seq<char>,
    working_dir: WorkingDirState,
    sync_state: SyncState,
    pr: PrInfoView,
    has_remote: bool,
    base_pr_merged: Option<Seq<char>>,
    recorded_base: Option<Seq<char>>,
    recorded_base_merged: bool,
)
    requires
        current != home,
        pr.state is Closed,
    ensures
        next_action_for(
            current,
            home,
            working_dir,
            sync_state,
            Some(pr),
            has_remote,
            base_pr_merged,
            recorded_base,
            recorded_base_merged,
        ) == (NextActionView::PrClosed { pr_number: pr.number }),
{
}

/// Off the home branch, a clean branch that is up to date with its upstream
/// waits for the review of its open pull request; without a pull request
/// but with a remote branch, one is to be created (against the recorded
/// parent), unless that parent has merged, in which case the branch is
/// first rebased off it.
pub proof fn lemma_up_to_date_waits_or_opens_pr(
    current: Seq<char>,
    home: Seq<char>,
    pr: Option<PrInfoView>,
    has_remote: bool,
    recorded_base: Option<Seq<char>>,
    recorded_base_merged: bool,
)
    requires
        current != home,
        !(pr is Some && (pr->0.state is Merged || pr->0.state is Closed)),
    ensures
        ({
            let a = next_action_for(
                current,
                home,
                WorkingDirState::Clean,
                SyncState::Synced,
                pr,
                has_remote,
                None,
                recorded_base,
                recorded_base_merged,
            );
            &&& pr matches Some(p) ==> a == (NextActionView::WaitingForReview { pr_number: p.number })
            &&& (pr is None && has_remote && !(recorded_base_merged && recorded_base is Some)) ==> a == (
            NextActionView::CreatePr { base: recorded_base })
            &&& (pr is None && has_remote && recorded_base_merged && recorded_base is Some) ==> a == (
            NextActionView::StackedBaseMerged { base_branch: recorded_base->0 })
        }),
{
}

/// On the home branch, being behind its upstream asks to catch up by that
/// many commits; otherwise new work is to be started.
pub proof fn lemma_home_branch_behind(
    home: Seq<char>,
    working_dir: WorkingDirState,
    sync_state: SyncState,
    pr: Option<PrInfoView>,
    has_remote: bool,
    base_pr_merged: Option<Seq<char>>,
    recorded_base: Option<Seq<char>>,
    recorded_base_merged: bool,
)
    ensures
        ({
            let a = next_action_for(
                home,
                home,
                working_dir,
                sync_state,
                pr,
                has_remote,
                base_pr_merged,
                recorded_base,
                recorded_base_merged,
            );
            &&& sync_state matches SyncState::Behind { count } ==> a == (NextActionView::SyncHomeWithUpstream {
                behind_count: count,
            })
            &&& !(sync_state is Behind) ==> a is StartNewWork
        }),
{
}

/// For a detection context off the home branch, with no merged or closed
/// pull request, no merged base and a clean working tree: unpushed commits
/// (or no upstream) always recommend a push, and a branch up to date with its
/// upstream and with an open pull request waits for that pull request's review.
pub proof fn lemma_detect_push_or_review(ctx: &DetectContext)
    requires
        ctx.current_branch@ != ctx.home_branch@,
        !(ctx.pr_info matches Some(p) && (p.state is Merged || p.state is Closed)),
        ctx.base_pr_merged is None,
        *ctx.working_dir is Clean,
    ensures
        (*ctx.sync_state is HasUnpushedCommits || *ctx.sync_state is NoUpstream) ==> detect_view(ctx) is PushChanges,
        (*ctx.sync_state is Synced && ctx.pr_info is Some) ==> detect_view(ctx) == (NextActionView::WaitingForReview {
            pr_number: ctx.pr_info->0.number,
        }),
{
}

} // verus!
