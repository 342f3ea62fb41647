//! The git operations against the answers git gives in a fresh repository
//! with one commit ("Initial commit").

use git_workflow::git;
use git_workflow::github::{CommandOutput, MockCommandExecutor};

fn fresh_repo() -> MockCommandExecutor {
    let mut m = MockCommandExecutor::new();
    m.on_command("git", &["rev-parse", "--git-dir"], CommandOutput::success(".git\n"));
    m.on_command("git", &["rev-parse", "--git-common-dir"], CommandOutput::success(".git\n"));
    m.on_command("git", &["rev-parse", "--abbrev-ref", "HEAD"], CommandOutput::success("main\n"));
    m.on_command(
        "git",
        &["rev-parse", "HEAD"],
        CommandOutput::success("3b18e512dba79e4c8300dd08aeb37f8e728b8dad\n"),
    );
    m.on_command("git", &["rev-parse", "--short", "HEAD"], CommandOutput::success("3b18e51\n"));
    m.on_command("git", &["log", "-1", "--format=%s"], CommandOutput::success("Initial commit\n"));
    m.on_command("git", &["stash", "list"], CommandOutput::success(""));
    m
}

#[test]
fn test_current_branch() {
    let mut repo = fresh_repo();
    let branch = git::current_branch(&mut repo).unwrap();
    assert!(branch == "main" || branch == "master");
}

#[test]
fn test_is_worktree_main_repo() {
    let mut repo = fresh_repo();
    let git_dir = git::git_dir(&mut repo).unwrap();
    let common_dir = git::git_common_dir(&mut repo).unwrap();
    assert_eq!(git_dir, common_dir);
    assert!(!git::is_worktree(&mut repo).unwrap());
}

#[test]
fn test_head_commit() {
    let mut repo = fresh_repo();
    let commit = git::head_commit(&mut repo).unwrap();
    assert!(!commit.is_empty());
    assert_eq!(commit.len(), 40);
}

#[test]
fn test_short_commit() {
    let mut repo = fresh_repo();
    let commit = git::short_commit(&mut repo).unwrap();
    assert!(!commit.is_empty());
    assert!(commit.len() <= 10);
}

#[test]
fn test_head_commit_message() {
    let mut repo = fresh_repo();
    let msg = git::head_commit_message(&mut repo).unwrap();
    assert_eq!(msg, "Initial commit");
}

#[test]
fn test_stash_count_empty() {
    let mut repo = fresh_repo();
    assert_eq!(git::stash_count(&mut repo), 0);
}

#[test]
fn test_checkout_new_branch() {
    let mut repo = fresh_repo();
    let current = git::current_branch(&mut repo).unwrap();
    repo.on_command(
        "git",
        &["checkout", "-b", "new-feature", current.as_str(), "--quiet"],
        CommandOutput::success(""),
    );
    git::checkout_new_branch(&mut repo, "new-feature", &current).unwrap();
    assert!(repo.was_called("git", &["checkout", "-b", "new-feature", "main", "--quiet"]));
    repo.on_command("git", &["rev-parse", "--abbrev-ref", "HEAD"], CommandOutput::success("new-feature\n"));
    let branch = git::current_branch(&mut repo).unwrap();
    assert_eq!(branch, "new-feature");
}

#[test]
fn stash_count_counts_lines() {
    let mut repo = fresh_repo();
    repo.on_command(
        "git",
        &["stash", "list"],
        CommandOutput::success("stash@{0}: WIP on main\nstash@{1}: On main: x\n"),
    );
    assert_eq!(git::stash_count(&mut repo), 2);
}

#[test]
fn checkout_held_by_another_worktree_is_named() {
    let mut repo = fresh_repo();
    repo.on_command(
        "git",
        &["checkout", "main", "--quiet"],
        CommandOutput::failure("fatal: 'main' is already checked out at '/work/wt-2'\n"),
    );
    let err = git::checkout(&mut repo, "main").unwrap_err();
    assert_eq!(
        err.to_string(),
        "Branch 'main' is checked out in another worktree at '/work/wt-2'"
    );
}

#[test]
fn remote_branch_exists_distinguishes_absent_from_unknown() {
    let mut repo = fresh_repo();
    let mut absent = CommandOutput::failure("");
    absent.code = Some(2);
    repo.on_command("git", &["ls-remote", "--exit-code", "--heads", "origin", "gone"], absent);
    assert!(!git::remote_branch_exists(&mut repo, "gone").unwrap());
    let mut broken = CommandOutput::failure("fatal: could not read from remote\n");
    broken.code = Some(128);
    repo.on_command("git", &["ls-remote", "--exit-code", "--heads", "origin", "x"], broken);
    let err = git::remote_branch_exists(&mut repo, "x").unwrap_err();
    assert_eq!(
        err.to_string(),
        "Git command failed: Could not query remote branch 'x': fatal: could not read from remote"
    );
    repo.on_command(
        "git",
        &["ls-remote", "--exit-code", "--heads", "origin", "feature"],
        CommandOutput::success("0123abcd\trefs/heads/feature\n"),
    );
    assert!(git::remote_branch_exists(&mut repo, "feature").unwrap());
    assert_eq!(git::remote_branch_tip(&mut repo, "feature").unwrap().as_deref(), Some("0123abcd"));
}

#[test]
fn default_branch_falls_back_to_local_branches() {
    let mut repo = fresh_repo();
    let mut absent = CommandOutput::failure("");
    absent.code = Some(2);
    repo.on_command("git", &["ls-remote", "--exit-code", "--heads", "origin", "main"], absent.clone());
    repo.on_command("git", &["ls-remote", "--exit-code", "--heads", "origin", "master"], absent);
    repo.on_command("git", &["show-ref", "--verify", "--quiet", "refs/heads/master"], CommandOutput::success(""));
    assert_eq!(git::default_branch_name(&mut repo).unwrap(), "master");
    assert!(git::get_default_remote_branch(&mut repo).is_err());
}

#[test]
fn commit_count_parses_the_count() {
    let mut repo = fresh_repo();
    repo.on_command("git", &["rev-list", "--count", "a..b"], CommandOutput::success("12\n"));
    assert_eq!(git::commit_count(&mut repo, "a", "b").unwrap(), 12);
    repo.on_command("git", &["rev-list", "--count", "a..c"], CommandOutput::success("many\n"));
    assert_eq!(
        git::commit_count(&mut repo, "a", "c").unwrap_err().to_string(),
        "Git command failed: Failed to parse commit count"
    );
}

#[test]
fn test_is_git_repo() {
    let mut repo = fresh_repo();
    assert!(git::is_git_repo(&mut repo));
}

#[test]
fn test_is_not_git_repo() {
    let mut dir = MockCommandExecutor::new();
    dir.on_command(
        "git",
        &["rev-parse", "--git-dir"],
        CommandOutput::failure("fatal: not a git repository (or any of the parent directories): .git"),
    );
    assert!(!git::is_git_repo(&mut dir));
}

#[test]
fn test_branch_exists() {
    let mut repo = fresh_repo();
    repo.on_command("git", &["show-ref", "--verify", "--quiet", "refs/heads/test-branch"], CommandOutput::success(""));
    repo.on_command(
        "git",
        &["show-ref", "--verify", "--quiet", "refs/heads/nonexistent-branch"],
        CommandOutput::failure(""),
    );
    assert!(git::branch_exists(&mut repo, "test-branch"));
    assert!(!git::branch_exists(&mut repo, "nonexistent-branch"));
}

#[test]
fn test_has_uncommitted_changes_clean() {
    let mut repo = fresh_repo();
    repo.on_command("git", &["diff", "--quiet"], CommandOutput::success(""));
    repo.on_command("git", &["diff", "--cached", "--quiet"], CommandOutput::success(""));
    assert!(!git::has_unstaged_changes(&mut repo));
    assert!(!git::has_staged_changes(&mut repo));
}

#[test]
fn test_delete_branch() {
    let mut repo = fresh_repo();
    repo.on_command("git", &["show-ref", "--verify", "--quiet", "refs/heads/to-delete"], CommandOutput::success(""));
    assert!(git::branch_exists(&mut repo, "to-delete"));
    repo.on_command("git", &["branch", "-d", "to-delete"], CommandOutput::success("Deleted branch to-delete.\n"));
    assert!(git::delete_branch(&mut repo, "to-delete").is_ok());
    // git now reports the ref missing
    repo.on_command("git", &["show-ref", "--verify", "--quiet", "refs/heads/to-delete"], CommandOutput::failure(""));
    assert!(!git::branch_exists(&mut repo, "to-delete"));
}

/// A runner that answers every command with the same output.
struct Canned {
    stdout: &'static str,
}

impl git_workflow::github::CommandRunner for Canned {
    fn run(&mut self, _program: &str, _args: &[&str]) -> git_workflow::error::Result<CommandOutput> {
        Ok(CommandOutput::success(self.stdout))
    }

    fn run_in_dir(&mut self, program: &str, args: &[&str], _dir: &str) -> git_workflow::error::Result<CommandOutput> {
        self.run(program, args)
    }
}

#[test]
fn recording_executor_hands_commands_to_its_runner() {
    let mut exec = git_workflow::github::RecordingExecutor::new(Canned { stdout: "feature/x\n" });
    assert_eq!(git::current_branch(&mut exec).unwrap(), "feature/x");
    assert!(git::is_git_repo(&mut exec));
}
