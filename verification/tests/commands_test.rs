//! The decisions of `new`, `cleanup`, `pause`, `undo`, `status`, the pool
//! commands and the shared home-branch steps.

use git_workflow::commands::cleanup::{
    check_unpushed_commits, cleanup_target, delete_local_branch, display_pr_info, handle_remote_branch,
    should_allow_force_delete, CleanupTarget, ForceDelete, LocalDeletion, RemoteHandling, UnpushedCheck,
};
use git_workflow::commands::helpers::{fast_forward_home_ref, pull_with_output, FastForward, PullOutcome};
use git_workflow::commands::home::{go_home, switch_to_home, HomeSwitch};
use git_workflow::commands::new::{choose_new_base, new_hint_lines, start_point, NewBase};
use git_workflow::commands::pause::{pause_comment, wip_message};
use git_workflow::commands::status::{branch_line, remote_line, stash_line, upstream_line};
use git_workflow::commands::undo::may_be_pushed;
use git_workflow::commands::worktree_pool::{
    acquired_row, display_pool_next_action, drain_check, exclude_update, kept_error, leader_name, pool_counts_line,
    pool_prefix, release_target, warm_plan, worktree_issues,
};
use git_workflow::commands::cleanup::require_clean;
use git_workflow::commands::worktree_pool::{choose_clean, release_all_plan, warm_rollback, NewWorktree};
use git_workflow::error::GwError;
use git_workflow::github::{CommandOutput, GitHubClient, MergeMethod, MockCommandExecutor, PrInfo, PrState};
use git_workflow::pool::detect::{PoolNextAction, PoolState, ScannedDir};
use git_workflow::state::{classify_branch, RepoType, SyncState, WorkingDirState};

fn ok() -> CommandOutput {
    CommandOutput::success("")
}

#[test]
fn new_refuses_an_ambiguous_base() {
    assert_eq!(
        choose_new_base(true, true, false).unwrap_err().to_string(),
        "--stack requires a non-home current branch"
    );
    assert_eq!(
        choose_new_base(false, false, false).unwrap_err().to_string(),
        "gw new outside the home branch needs --stack (or run gw home first)"
    );
    assert_eq!(choose_new_base(true, false, true).unwrap(), NewBase::Stack);
    assert_eq!(choose_new_base(false, true, false).unwrap(), NewBase::Fresh);
    assert_eq!(choose_new_base(false, true, true).unwrap(), NewBase::CarryDirty);
    assert_eq!(start_point(NewBase::CarryDirty, "main", "origin/main"), "main");
    assert_eq!(start_point(NewBase::Fresh, "main", "origin/main"), "origin/main");
}

#[test]
fn new_hints_follow_the_base() {
    assert_eq!(
        new_hint_lines("feature/x", 2, Some("parent")),
        vec![
            "# Make changes, then:".to_string(),
            "git add <files> && git commit -m \"feat: description\"".to_string(),
            "gw sync  # local main was behind; catch up".to_string(),
            "git push -u origin feature/x".to_string(),
            "gh pr create -a \"@me\" -B parent -t \"Title\"".to_string(),
        ]
    );
    assert_eq!(new_hint_lines("f", 0, None).len(), 4);
}

#[test]
fn cleanup_target_and_force_delete() {
    match cleanup_target(None, "feature/x", "main", false).unwrap() {
        CleanupTarget::Delete(b) => assert_eq!(b, "feature/x"),
        _ => panic!("the current branch is deleted"),
    }
    match cleanup_target(None, "main", "main", false) {
        Err(GwError::AlreadyOnHomeBranch(b)) => assert_eq!(b, "main"),
        _ => panic!("nothing to delete on the home branch"),
    }
    assert!(matches!(cleanup_target(None, "main", "main", true).unwrap(), CleanupTarget::ReleasePool));

    let mut exec = MockCommandExecutor::new();
    let merged = Some(PrInfo::new(
        3,
        "t",
        "u",
        PrState::Merged { method: MergeMethod::Squash, merge_commit: None },
        "main",
    ));
    let f = should_allow_force_delete(&mut exec, &merged, "feature/x");
    assert!(matches!(f, ForceDelete::MergedPr(MergeMethod::Squash)));
    assert!(f.allowed());

    let mut absent = CommandOutput::failure("");
    absent.code = Some(2);
    exec.on_command("git", &["ls-remote", "--exit-code", "--heads", "origin", "feature/x"], absent);
    let f = should_allow_force_delete(&mut exec, &None, "feature/x");
    assert!(matches!(f, ForceDelete::NotOnRemote));
    assert!(f.allowed());

    let mut broken = CommandOutput::failure("network");
    broken.code = Some(128);
    exec.on_command("git", &["ls-remote", "--exit-code", "--heads", "origin", "feature/x"], broken);
    let f = should_allow_force_delete(&mut exec, &None, "feature/x");
    assert!(!f.allowed());
}

#[test]
fn cleanup_deletes_locally_and_remotely_only_when_safe() {
    let repo = RepoType::MainRepo { home_branch: "main".to_string() };
    let deletable = classify_branch("feature/x", &repo).try_deletable().unwrap();
    let mut exec = MockCommandExecutor::new();
    exec.on_command("git", &["branch", "-d", "feature/x"], CommandOutput::failure("not fully merged"));
    exec.on_command("git", &["branch", "-D", "feature/x"], ok());
    assert!(matches!(delete_local_branch(&mut exec, deletable, "feature/x", true), LocalDeletion::ForceDeleted));
    let deletable = classify_branch("feature/x", &repo).try_deletable().unwrap();
    assert!(matches!(delete_local_branch(&mut exec, deletable, "feature/x", false), LocalDeletion::Kept));
    assert!(classify_branch("main", &repo).try_deletable().is_err());

    let mut client = GitHubClient::with_executor(MockCommandExecutor::new());
    client.executor_mut().on_command(
        "git",
        &["ls-remote", "--exit-code", "--heads", "origin", "feature/x"],
        CommandOutput::success("abc\trefs/heads/feature/x\n"),
    );
    client.executor_mut().on_command("git", &["push", "origin", "--delete", "feature/x"], ok());
    let open = Some(PrInfo::new(4, "t", "u", PrState::Open, "main"));
    assert!(matches!(handle_remote_branch(&mut client, "feature/x", &open), RemoteHandling::OpenPr(4)));
    assert!(!client.executor().was_called("git", &["push", "origin", "--delete", "feature/x"]));
    let merged = Some(PrInfo::new(
        4,
        "t",
        "u",
        PrState::Merged { method: MergeMethod::Merge, merge_commit: None },
        "main",
    ));
    assert!(matches!(handle_remote_branch(&mut client, "feature/x", &merged), RemoteHandling::Deleted));
    assert_eq!(display_pr_info(&merged.unwrap()), "PR #4: t [MERGED (merge)]");
}

#[test]
fn unpushed_commits_block_cleanup() {
    let mut exec = MockCommandExecutor::new();
    exec.on_command(
        "git",
        &["rev-parse", "--abbrev-ref", "feature/x@{upstream}"],
        CommandOutput::success("origin/feature/x\n"),
    );
    exec.on_command("git", &["rev-list", "--count", "origin/feature/x..feature/x"], CommandOutput::success("3\n"));
    exec.on_command("git", &["rev-list", "--count", "feature/x..origin/feature/x"], CommandOutput::success("0\n"));
    match check_unpushed_commits(&mut exec, "feature/x") {
        Err(GwError::UnpushedCommits(b, n)) => {
            assert_eq!(b, "feature/x");
            assert_eq!(n, 3);
        }
        _ => panic!("three unpushed commits block cleanup"),
    }
    let mut exec = MockCommandExecutor::new();
    let mut absent = CommandOutput::failure("");
    absent.code = Some(2);
    exec.on_command("git", &["ls-remote", "--exit-code", "--heads", "origin", "feature/x"], absent);
    assert!(matches!(check_unpushed_commits(&mut exec, "feature/x").unwrap(), UnpushedCheck::NeverPushed));
}

#[test]
fn home_steps() {
    let mut exec = MockCommandExecutor::new();
    assert_eq!(switch_to_home(&mut exec, "main", "main", "origin/main").unwrap(), HomeSwitch::AlreadyHome);
    exec.on_command("git", &["checkout", "-b", "main", "origin/main", "--quiet"], ok());
    assert_eq!(switch_to_home(&mut exec, "feature/x", "main", "origin/main").unwrap(), HomeSwitch::Created);

    let mut exec = MockCommandExecutor::new();
    exec.on_command("git", &["rev-parse", "--verify", "--quiet", "origin/main"], ok());
    exec.on_command("git", &["merge-base", "--is-ancestor", "main", "origin/main"], ok());
    exec.on_command("git", &["rev-list", "--count", "main..origin/main"], CommandOutput::success("4\n"));
    exec.on_command("git", &["branch", "-f", "main", "origin/main"], ok());
    assert!(matches!(fast_forward_home_ref(&mut exec, "main", "origin/main"), FastForward::Moved(4)));

    let mut exec = MockCommandExecutor::new();
    exec.on_command("git", &["rev-parse", "HEAD"], CommandOutput::success("a\n"));
    exec.on_command("git", &["pull", "origin", "main", "--ff-only", "--quiet"], ok());
    assert!(matches!(pull_with_output(&mut exec, "main").unwrap(), PullOutcome::UpToDate));
    exec.on_command("git", &["pull", "origin", "main", "--ff-only", "--quiet"], CommandOutput::failure("diverged"));
    assert!(matches!(pull_with_output(&mut exec, "main").unwrap(), PullOutcome::Diverged(_)));
}

#[test]
fn pause_and_undo_texts() {
    assert_eq!(wip_message(Some("lunch")), "WIP: lunch");
    assert_eq!(wip_message(None), "WIP: paused");
    assert_eq!(pause_comment("x"), "⏸️ Paused work on this PR: x");
    assert!(may_be_pushed(&SyncState::Synced));
    assert!(may_be_pushed(&SyncState::Behind { count: 2 }));
    assert!(!may_be_pushed(&SyncState::HasUnpushedCommits { count: 1 }));
}

#[test]
fn status_lines() {
    assert_eq!(
        branch_line("main", "main"),
        "\x1b[0;32m✓\x1b[0m Branch: \x1b[1mmain\x1b[0m (home)"
    );
    assert_eq!(remote_line("f", false), "\x1b[0;34mℹ\x1b[0m Remote: not pushed");
    assert_eq!(stash_line(0), None);
    assert_eq!(stash_line(2).unwrap(), "\x1b[0;34mℹ\x1b[0m Stashes: 2");
    assert_eq!(
        upstream_line(&SyncState::Diverged { ahead: 1, behind: 2 }),
        "\x1b[0;33m⚠\x1b[0m Upstream: diverged (1 ahead, 2 behind)"
    );
}

fn scanned(name: &str, acquired: bool) -> ScannedDir {
    ScannedDir {
        name: name.to_string(),
        path: format!("/l/.worktrees/{name}"),
        is_dir: true,
        marker: if acquired { Some(Some("l".to_string())) } else { None },
    }
}

#[test]
fn pool_rules() {
    assert_eq!(leader_name(Some("..web-2")).unwrap(), "web-2");
    assert_eq!(
        leader_name(Some("...")).unwrap_err().to_string(),
        "Leader directory name is not valid for branch naming: ..."
    );
    assert_eq!(pool_prefix("web-2"), "web-2-pool-");
    assert_eq!(warm_plan(1, 3), 2);
    assert_eq!(warm_plan(3, 2), 0);
    assert_eq!(exclude_update(None).unwrap(), ".worktrees/\n");
    assert_eq!(exclude_update(Some("a\n  .worktrees/ \n")), None);
    assert_eq!(exclude_update(Some("a")).unwrap(), "a\n.worktrees/\n");
    assert_eq!(exclude_update(Some("a\n")).unwrap(), "a\n.worktrees/\n");
    assert_eq!(
        worktree_issues(true, Some("feature"), "p-001", Some(" M x"), Some("rebase")),
        vec![
            "on branch 'feature', expected pool home branch 'p-001'".to_string(),
            "has uncommitted or untracked changes".to_string(),
            "a rebase is in progress".to_string(),
        ]
    );
    assert_eq!(worktree_issues(false, None, "p", None, None), vec!["worktree directory is missing".to_string()]);
    assert!(worktree_issues(true, Some("p"), "p", Some(""), None).is_empty());

    let state = PoolState::scan(vec![scanned("p-001", true), scanned("p-002", false)], "p-");
    assert_eq!(release_target(&state, "p-001").unwrap(), 0);
    assert!(matches!(release_target(&state, "p-002"), Err(GwError::PoolWorktreeNotAcquired(_))));
    assert!(matches!(release_target(&state, "nope"), Err(GwError::PoolWorktreeNotFound(_))));
    assert!(matches!(drain_check(&state, false), Err(GwError::PoolHasAcquiredWorktrees(1))));
    assert_eq!(drain_check(&state, true).unwrap(), 2);
    assert_eq!(
        kept_error(&vec!["p-003".to_string(), "p-004".to_string()]).unwrap().to_string(),
        "Kept 2 unclean worktree(s) acquired: p-003, p-004. Run `gw cleanup` inside each (or fix it), then `gw worktree pool release <name>`."
    );
    assert_eq!(pool_counts_line(1, 2, 3), "Pool: 1 available, 2 acquired, 3 total");
    assert_eq!(display_pool_next_action(&PoolNextAction::WarmPool)[1], "  gw worktree pool warm <count>");
    assert_eq!(acquired_row("p-001", "p-001"), format!("{:<24} (idle)", "p-001"));
    assert_eq!(acquired_row("p-001", "feat"), format!("{:<24} feat", "p-001"));
}

#[test]
fn acquire_takes_the_first_clean_available_worktree() {
    let state = PoolState::scan(
        vec![scanned("p-001", false), scanned("p-002", true), scanned("p-003", false), scanned("p-004", false)],
        "p-",
    );
    let dirty = vec!["has uncommitted or untracked changes".to_string()];
    assert_eq!(choose_clean(&state, &vec![dirty.clone(), vec![], vec![]]).unwrap(), 2);
    assert_eq!(choose_clean(&state, &vec![vec![], dirty.clone(), vec![]]).unwrap(), 0);
    assert!(matches!(
        choose_clean(&state, &vec![dirty.clone(), dirty.clone(), dirty.clone()]),
        Err(GwError::PoolNoCleanWorktree)
    ));
    let exhausted = PoolState::scan(vec![scanned("p-001", true)], "p-");
    assert!(matches!(choose_clean(&exhausted, &vec![]), Err(GwError::PoolExhausted)));
}

#[test]
fn release_all_gives_back_the_clean_and_keeps_the_rest() {
    let state = PoolState::scan(vec![scanned("p-001", true), scanned("p-002", true), scanned("p-003", true)], "p-");
    let dirty = vec!["a rebase is in progress".to_string()];
    let (released, kept) = release_all_plan(&state, &vec![0, 1, 2], &vec![vec![], dirty, vec![]]);
    assert_eq!(released, vec![0, 2]);
    assert_eq!(kept, vec!["p-002".to_string()]);
}

#[test]
fn failed_setup_removes_the_worktree_then_its_branch() {
    let mut exec = MockCommandExecutor::new();
    warm_rollback(&mut exec, &NewWorktree { name: "p-004".to_string(), path: "/l/.worktrees/p-004".to_string() });
    let calls = exec.calls();
    assert_eq!(calls.len(), 2);
    assert_eq!(calls[0].args, vec!["worktree", "remove", "--force", "/l/.worktrees/p-004"]);
    assert_eq!(calls[1].args, vec!["branch", "-D", "p-004"]);
}

#[test]
fn cleanup_and_sync_refuse_uncommitted_changes() {
    assert!(require_clean(&WorkingDirState::Clean).is_ok());
    assert!(matches!(require_clean(&WorkingDirState::HasUntrackedFiles), Err(GwError::UncommittedChanges)));
}

#[test]
fn home_moves_the_ref_before_checking_out() {
    let mut exec = MockCommandExecutor::new();
    exec.on_command("git", &["rev-parse", "--verify", "--quiet", "origin/main"], ok());
    exec.on_command("git", &["merge-base", "--is-ancestor", "main", "origin/main"], ok());
    exec.on_command("git", &["rev-list", "--count", "main..origin/main"], CommandOutput::success("1\n"));
    exec.on_command("git", &["branch", "-f", "main", "origin/main"], ok());
    exec.on_command("git", &["show-ref", "--verify", "--quiet", "refs/heads/main"], ok());
    exec.on_command("git", &["checkout", "main", "--quiet"], ok());
    let (moved, switched) = go_home(&mut exec, "feature/x", "main", "origin/main");
    assert!(matches!(moved, FastForward::Moved(1)));
    assert_eq!(switched.unwrap(), HomeSwitch::Switched);
    let calls = exec.calls();
    let force = calls.iter().position(|c| c.args.first().map(|a| a == "branch").unwrap_or(false)).unwrap();
    let checkout = calls.iter().position(|c| c.args.first().map(|a| a == "checkout").unwrap_or(false)).unwrap();
    assert!(force < checkout);

    let mut home = MockCommandExecutor::new();
    let (moved, switched) = go_home(&mut home, "main", "main", "origin/main");
    assert!(matches!(moved, FastForward::Skipped));
    assert_eq!(switched.unwrap(), HomeSwitch::AlreadyHome);
    assert!(home.calls().is_empty());
}
