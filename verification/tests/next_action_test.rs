//! The recommended next action for each repository state.

use git_workflow::github::{MergeMethod, PrInfo, PrState};
use git_workflow::state::{DetectContext, NextAction, SyncState, WorkingDirState};

fn ctx<'a>(
    current: &'a str,
    home: &'a str,
    working_dir: &'a WorkingDirState,
    sync_state: &'a SyncState,
    pr_info: Option<&'a PrInfo>,
    has_remote: bool,
) -> DetectContext<'a> {
    DetectContext {
        current_branch: current,
        home_branch: home,
        working_dir,
        sync_state,
        pr_info,
        has_remote,
        base_pr_merged: None,
        recorded_base: None,
        recorded_base_merged: false,
    }
}

fn merged_pr(base: &str) -> PrInfo {
    PrInfo::new(
        42,
        "Test PR",
        "https://...",
        PrState::Merged {
            method: MergeMethod::Squash,
            merge_commit: None,
        },
        base,
    )
}

#[test]
fn test_on_home_branch_suggests_start_new_work() {
    let action = NextAction::detect(&ctx("main", "main", &WorkingDirState::Clean, &SyncState::Synced, None, false));
    assert_eq!(action, NextAction::StartNewWork);
}

#[test]
fn test_on_home_branch_behind_suggests_sync() {
    let action = NextAction::detect(&ctx(
        "main",
        "main",
        &WorkingDirState::Clean,
        &SyncState::Behind { count: 5 },
        None,
        false,
    ));
    assert_eq!(action, NextAction::SyncHomeWithUpstream { behind_count: 5 });
}

#[test]
fn test_uncommitted_changes_suggests_commit() {
    let action = NextAction::detect(&ctx(
        "feature/test",
        "main",
        &WorkingDirState::HasUnstagedChanges,
        &SyncState::Synced,
        None,
        true,
    ));
    assert_eq!(action, NextAction::CommitChanges);
}

#[test]
fn test_unpushed_commits_suggests_push() {
    let action = NextAction::detect(&ctx(
        "feature/test",
        "main",
        &WorkingDirState::Clean,
        &SyncState::HasUnpushedCommits { count: 2 },
        None,
        true,
    ));
    assert_eq!(action, NextAction::PushChanges);
}

#[test]
fn test_no_upstream_suggests_push() {
    let action = NextAction::detect(&ctx(
        "feature/test",
        "main",
        &WorkingDirState::Clean,
        &SyncState::NoUpstream,
        None,
        false,
    ));
    assert_eq!(action, NextAction::PushChanges);
}

#[test]
fn test_pushed_no_pr_suggests_create_pr() {
    let action = NextAction::detect(&ctx(
        "feature/test",
        "main",
        &WorkingDirState::Clean,
        &SyncState::Synced,
        None,
        true,
    ));
    assert_eq!(action, NextAction::CreatePr { base: None });
}

#[test]
fn test_pushed_no_pr_with_recorded_base_suggests_stacked_pr() {
    let action = NextAction::detect(&DetectContext {
        recorded_base: Some("feature/parent"),
        ..ctx("feature/child", "main", &WorkingDirState::Clean, &SyncState::Synced, None, true)
    });
    assert_eq!(
        action,
        NextAction::CreatePr {
            base: Some("feature/parent".to_string())
        }
    );
}

#[test]
fn test_recorded_base_merged_before_pr_suggests_rebase() {
    let action = NextAction::detect(&DetectContext {
        recorded_base: Some("feature/parent"),
        recorded_base_merged: true,
        ..ctx("feature/child", "main", &WorkingDirState::Clean, &SyncState::Synced, None, true)
    });
    assert_eq!(
        action,
        NextAction::StackedBaseMerged {
            base_branch: "feature/parent".to_string()
        }
    );
}

#[test]
fn test_open_pr_suggests_waiting() {
    let pr = PrInfo::new(42, "Test PR", "https://...", PrState::Open, "main");
    let action = NextAction::detect(&ctx(
        "feature/test",
        "main",
        &WorkingDirState::Clean,
        &SyncState::Synced,
        Some(&pr),
        true,
    ));
    assert_eq!(action, NextAction::WaitingForReview { pr_number: 42 });
}

#[test]
fn test_merged_pr_suggests_cleanup() {
    let pr = merged_pr("main");
    let action = NextAction::detect(&ctx(
        "feature/test",
        "main",
        &WorkingDirState::Clean,
        &SyncState::Synced,
        Some(&pr),
        true,
    ));
    assert_eq!(action, NextAction::Cleanup);
}

#[test]
fn test_closed_pr_suggests_reopen_or_cleanup() {
    let pr = PrInfo::new(42, "Test PR", "https://...", PrState::Closed, "main");
    let action = NextAction::detect(&ctx(
        "feature/test",
        "main",
        &WorkingDirState::Clean,
        &SyncState::Synced,
        Some(&pr),
        true,
    ));
    assert_eq!(action, NextAction::PrClosed { pr_number: 42 });
}

#[test]
fn test_behind_suggests_rebase() {
    let action = NextAction::detect(&ctx(
        "feature/test",
        "main",
        &WorkingDirState::Clean,
        &SyncState::Behind { count: 3 },
        None,
        true,
    ));
    assert_eq!(action, NextAction::RebaseNeeded);
}

#[test]
fn test_diverged_suggests_resolve() {
    let action = NextAction::detect(&ctx(
        "feature/test",
        "main",
        &WorkingDirState::Clean,
        &SyncState::Diverged { ahead: 2, behind: 3 },
        None,
        true,
    ));
    assert_eq!(action, NextAction::ResolveDivergence);
}

#[test]
fn test_uncommitted_changes_takes_priority_over_pr_open() {
    let pr = PrInfo::new(42, "Test PR", "https://...", PrState::Open, "main");
    let action = NextAction::detect(&ctx(
        "feature/test",
        "main",
        &WorkingDirState::HasStagedChanges,
        &SyncState::Synced,
        Some(&pr),
        true,
    ));
    assert_eq!(action, NextAction::CommitChanges);
}

#[test]
fn test_merged_pr_takes_priority_over_uncommitted_changes() {
    let pr = merged_pr("main");
    let action = NextAction::detect(&ctx(
        "feature/test",
        "main",
        &WorkingDirState::HasUnstagedChanges,
        &SyncState::Synced,
        Some(&pr),
        true,
    ));
    assert_eq!(action, NextAction::Cleanup);
}

#[test]
fn test_base_pr_merged_suggests_sync() {
    let pr = PrInfo::new(42, "Test PR", "https://...", PrState::Open, "feature/base");
    let action = NextAction::detect(&DetectContext {
        base_pr_merged: Some("feature/base"),
        ..ctx("feature/child", "main", &WorkingDirState::Clean, &SyncState::Synced, Some(&pr), true)
    });
    assert_eq!(
        action,
        NextAction::SyncNeeded {
            base_branch: "feature/base".to_string()
        }
    );
}

#[test]
fn test_base_pr_merged_takes_priority_over_waiting() {
    let pr = PrInfo::new(42, "Test PR", "https://...", PrState::Open, "feature/base");
    let action = NextAction::detect(&DetectContext {
        base_pr_merged: Some("feature/base"),
        ..ctx("feature/child", "main", &WorkingDirState::Clean, &SyncState::Synced, Some(&pr), true)
    });
    assert_eq!(
        action,
        NextAction::SyncNeeded {
            base_branch: "feature/base".to_string()
        }
    );
}

#[test]
fn display_lists_the_push_command_for_the_branch() {
    let lines = NextAction::PushChanges.display("feature/x");
    assert_eq!(lines[0], "");
    assert!(lines[2].ends_with("Next: push to remote"));
    assert_eq!(lines[4], "  git push -u origin feature/x");
    assert_eq!(lines.len(), 6);
}

#[test]
fn display_names_the_pull_request_number() {
    let lines = NextAction::WaitingForReview { pr_number: 41 }.display("b");
    assert_eq!(lines[4], "  gw await 41 --open  # Wait for merge, then cleanup");
    let lines = NextAction::WaitingForReview { pr_number: 0 }.display("b");
    assert_eq!(lines[4], "  gw open  # Open PR in browser");
}

#[test]
fn short_descriptions() {
    assert_eq!(NextAction::Cleanup.short_description(), "cleanup branch");
    assert_eq!(
        NextAction::StackedBaseMerged { base_branch: "p".to_string() }.short_description(),
        "rebase (base merged)"
    );
}
