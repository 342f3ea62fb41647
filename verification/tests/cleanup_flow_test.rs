//! The whole cleanup sequence, and the per-worktree steps of warming and
//! draining the pool.

use git_workflow::commands::cleanup::{self, ForceDelete, LocalDeletion, RemoteHandling};
use git_workflow::commands::home::HomeSwitch;
use git_workflow::commands::worktree_pool::{drain_entry, warm_settle, NewWorktree};
use git_workflow::error::GwError;
use git_workflow::github::{CommandCall, CommandOutput, GitHubClient, MockCommandExecutor};
use git_workflow::pool::detect::{PoolEntry, PoolState};
use git_workflow::pool::inventory::WorktreeStatus;
use git_workflow::state::{classify_branch, RepoType, WorkingDirState};

fn ok() -> CommandOutput {
    CommandOutput::success("")
}

fn absent() -> CommandOutput {
    let mut out = CommandOutput::failure("");
    out.code = Some(2);
    out
}

fn alters(c: &CommandCall) -> bool {
    c.program == "git" && ["fetch", "pull", "checkout", "branch", "push"].contains(&c.args[0].as_str())
}

/// A repository where `feature/x` exists, the tree is clean and `gh` is missing.
fn clean_repo() -> MockCommandExecutor {
    let mut exec = MockCommandExecutor::new();
    exec.on_command("git", &["show-ref", "--verify", "--quiet", "refs/heads/feature/x"], ok());
    exec.on_command("git", &["diff", "--quiet"], ok());
    exec.on_command("git", &["diff", "--cached", "--quiet"], ok());
    exec.on_command("git", &["ls-files", "--others", "--exclude-standard"], ok());
    exec
}

fn run_cleanup(exec: MockCommandExecutor) -> (cleanup::CleanupReport, Result<(), GwError>, Vec<CommandCall>) {
    let repo = RepoType::MainRepo { home_branch: "main".to_string() };
    let deletable = classify_branch("feature/x", &repo).try_deletable().unwrap();
    let mut client = GitHubClient::with_executor(exec);
    let (report, outcome) = cleanup::run(&mut client, "feature/x", deletable, "feature/x", "main");
    let calls = client.executor_mut().calls();
    (report, outcome, calls)
}

#[test]
fn cleanup_stops_on_a_dirty_tree_before_asking_anything_else() {
    let mut exec = clean_repo();
    exec.on_command("git", &["diff", "--quiet"], CommandOutput::failure(""));
    let (report, outcome, calls) = run_cleanup(exec);
    assert!(matches!(outcome, Err(GwError::UncommittedChanges)));
    assert_eq!(report.checks.working_dir, WorkingDirState::HasUnstagedChanges);
    assert!(report.checks.exists);
    assert_eq!(calls.len(), 4);
    assert!(report.steps.force.is_none());
}

#[test]
fn cleanup_refuses_a_stacked_branch_before_switching_or_deleting() {
    let mut exec = clean_repo();
    exec.on_command(
        "git",
        &["config", "--get-regexp", "^branch\\..*\\.gwbase$"],
        CommandOutput::success("branch.child.gwbase feature/x\n"),
    );
    exec.on_command("git", &["show-ref", "--verify", "--quiet", "refs/heads/child"], ok());
    let (report, outcome, calls) = run_cleanup(exec);
    let e = outcome.unwrap_err();
    assert!(e.to_string().contains("child"));
    assert!(!calls.iter().any(alters));
    assert!(report.steps.force.is_none());
    assert!(!report.steps.fetched);
    // show-ref, three working tree checks, gh --version, the listing, one existence check
    assert_eq!(calls.len(), 7);
}

#[test]
fn cleanup_without_stacked_branches_goes_home_and_deletes() {
    let mut exec = clean_repo();
    exec.on_command("git", &["config", "--get-regexp", "^branch\\..*\\.gwbase$"], CommandOutput::failure(""));
    exec.on_command("git", &["ls-remote", "--exit-code", "--heads", "origin", "feature/x"], absent());
    exec.on_command("git", &["fetch", "--prune", "--quiet"], ok());
    exec.on_command(
        "git",
        &["ls-remote", "--exit-code", "--heads", "origin", "main"],
        CommandOutput::success("abc\trefs/heads/main\n"),
    );
    exec.on_command("git", &["show-ref", "--verify", "--quiet", "refs/heads/main"], ok());
    exec.on_command("git", &["checkout", "main", "--quiet"], ok());
    exec.on_command("git", &["pull", "origin", "main", "--quiet"], ok());
    exec.on_command("git", &["branch", "-d", "feature/x"], ok());
    exec.on_command("git", &["stash", "list"], CommandOutput::success("stash@{0}: WIP\n"));
    let (report, outcome, calls) = run_cleanup(exec);
    assert!(outcome.is_ok());
    assert!(!report.checks.gh_available);
    assert!(matches!(report.steps.force, Some(ForceDelete::NotOnRemote)));
    assert!(report.steps.unpushed.is_none());
    assert!(report.steps.fetched);
    assert_eq!(report.steps.default_remote.as_deref(), Some("origin/main"));
    assert_eq!(report.steps.home, Some(HomeSwitch::Switched));
    assert!(report.steps.pulled);
    assert!(matches!(report.steps.deletion, Some(LocalDeletion::Deleted)));
    assert!(matches!(report.steps.remote, Some(RemoteHandling::Gone { merged: false })));
    assert_eq!(report.steps.stashes, Some(1));
    // the first run that changes anything comes after the guard's listing
    let guard = calls.iter().position(|c| c.args[0] == "config").unwrap();
    let first_change = calls.iter().position(alters).unwrap();
    assert!(guard < first_change);
    assert_eq!(calls[first_change].args, vec!["fetch", "--prune", "--quiet"]);
}

#[test]
fn cleanup_refuses_unpushed_commits_before_fetching() {
    let mut exec = clean_repo();
    exec.on_command("git", &["config", "--get-regexp", "^branch\\..*\\.gwbase$"], CommandOutput::failure(""));
    exec.on_command(
        "git",
        &["ls-remote", "--exit-code", "--heads", "origin", "feature/x"],
        CommandOutput::success("abc\trefs/heads/feature/x\n"),
    );
    exec.on_command(
        "git",
        &["rev-parse", "--abbrev-ref", "feature/x@{upstream}"],
        CommandOutput::success("origin/feature/x\n"),
    );
    exec.on_command("git", &["rev-list", "--count", "origin/feature/x..feature/x"], CommandOutput::success("2\n"));
    exec.on_command("git", &["rev-list", "--count", "feature/x..origin/feature/x"], CommandOutput::success("0\n"));
    let (report, outcome, calls) = run_cleanup(exec);
    assert!(matches!(report.steps.force, Some(ForceDelete::RemoteExists)));
    match outcome {
        Err(GwError::UnpushedCommits(b, n)) => {
            assert_eq!(b, "feature/x");
            assert_eq!(n, 2);
        }
        other => panic!("expected unpushed commits, got {:?}", other),
    }
    assert!(!report.steps.fetched);
    assert!(!calls.iter().any(alters));
}

#[test]
fn a_successful_setup_keeps_the_new_worktree() {
    let mut exec = MockCommandExecutor::new();
    let mut state = PoolState { entries: vec![] };
    let kept = warm_settle(
        &mut exec,
        &mut state,
        NewWorktree { name: "p-001".to_string(), path: "/l/.worktrees/p-001".to_string() },
        true,
    );
    assert!(kept);
    assert!(exec.calls().is_empty());
    assert_eq!(state.entries.len(), 1);
    assert_eq!(state.entries[0].name, "p-001");
    assert_eq!(state.entries[0].branch, "p-001");
    assert_eq!(state.entries[0].status, WorktreeStatus::Available);
}

#[test]
fn a_failed_setup_takes_the_new_worktree_apart() {
    let mut exec = MockCommandExecutor::new();
    let mut state = PoolState { entries: vec![] };
    let kept = warm_settle(
        &mut exec,
        &mut state,
        NewWorktree { name: "p-002".to_string(), path: "/l/.worktrees/p-002".to_string() },
        false,
    );
    assert!(!kept);
    assert!(state.entries.is_empty());
    let calls = exec.calls();
    assert_eq!(calls.len(), 2);
    assert_eq!(calls[0].args, vec!["worktree", "remove", "--force", "/l/.worktrees/p-002"]);
    assert_eq!(calls[1].args, vec!["branch", "-D", "p-002"]);
}

#[test]
fn draining_removes_the_worktree_then_its_branch_from_the_leader() {
    let mut exec = MockCommandExecutor::new();
    exec.on_command("git", &["worktree", "remove", "--force", "/l/.worktrees/p-001"], ok());
    let entry = PoolEntry {
        name: "p-001".to_string(),
        path: "/l/.worktrees/p-001".to_string(),
        branch: "p-001".to_string(),
        status: WorktreeStatus::Acquired,
        owner: None,
    };
    let (removed, deleted) = drain_entry(&mut exec, "/l", &entry);
    assert!(removed.is_ok());
    assert!(deleted.is_err());
    let calls = exec.calls();
    assert_eq!(calls.len(), 2);
    assert_eq!(calls[0].args, vec!["worktree", "remove", "--force", "/l/.worktrees/p-001"]);
    assert_eq!(calls[0].dir.as_deref(), Some("/l"));
    assert_eq!(calls[1].args, vec!["branch", "-D", "p-001"]);
    assert_eq!(calls[1].dir.as_deref(), Some("/l"));
}
