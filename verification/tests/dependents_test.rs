//! The guard against cleaning up a branch that others are stacked on.

use git_workflow::commands::cleanup::RemoteHandling;
use git_workflow::commands::dependents::{
    guard_cleanup, guarded_remote_cleanup, local_children, open_child_prs, refuse_local_children,
    refuse_remote_children,
};
use git_workflow::github::{CommandOutput, GitHubClient, MergeMethod, MockCommandExecutor, PrInfo, PrState};

const CHILD_PRS: [&str; 8] = ["pr", "list", "--base", "base", "--state", "open", "--json", "number,headRefName"];

fn merged(head: &str) -> PrInfo {
    PrInfo {
        number: 7,
        title: "Base work".to_string(),
        url: "https://github.com/o/r/pull/7".to_string(),
        state: PrState::Merged { method: MergeMethod::Squash, merge_commit: Some("abc".to_string()) },
        base_branch: "main".to_string(),
        head_branch: head.to_string(),
    }
}

fn no_parents(exec: &mut MockCommandExecutor) {
    exec.on_command("git", &["config", "--get-regexp", "^branch\\..*\\.gwbase$"], CommandOutput::failure(""));
}

fn remote_present(exec: &mut MockCommandExecutor) {
    exec.on_command(
        "git",
        &["ls-remote", "--exit-code", "--heads", "origin", "base"],
        CommandOutput::success("abc\trefs/heads/base\n"),
    );
}

fn is_delete(c: &git_workflow::github::CommandCall) -> bool {
    c.args.iter().any(|a| a == "--delete")
}

fn listing() -> CommandOutput {
    CommandOutput::success(
        "branch.child-a.gwbase feature/base\nbranch.other.gwbase main\nbranch.child-b.gwbase feature/base\nbranch.gone.gwbase feature/base\n",
    )
}

fn live(exec: &mut MockCommandExecutor, name: &str) {
    let r = format!("refs/heads/{}", name);
    exec.on_command("git", &["show-ref", "--verify", "--quiet", r.as_str()], CommandOutput::success(""));
}

#[test]
fn local_children_lists_live_branches_recording_the_parent() {
    let mut exec = MockCommandExecutor::new();
    exec.on_command("git", &["config", "--get-regexp", "^branch\\..*\\.gwbase$"], listing());
    live(&mut exec, "child-a");
    live(&mut exec, "child-b");
    live(&mut exec, "other");
    let children = local_children(&mut exec, "feature/base").unwrap();
    assert_eq!(children, vec!["child-a".to_string(), "child-b".to_string()]);
    // one listing, then one existence check per candidate (the deleted `gone` included)
    assert_eq!(exec.calls().len(), 4);
}

#[test]
fn local_children_with_no_recorded_parent_is_empty() {
    let mut exec = MockCommandExecutor::new();
    exec.on_command(
        "git",
        &["config", "--get-regexp", "^branch\\..*\\.gwbase$"],
        CommandOutput::failure(""),
    );
    assert!(local_children(&mut exec, "feature/base").unwrap().is_empty());
    assert_eq!(exec.calls().len(), 1);
}

#[test]
fn local_children_reports_a_failing_listing() {
    let mut exec = MockCommandExecutor::new();
    let mut out = CommandOutput::failure("fatal: bad config");
    out.code = Some(3);
    exec.on_command("git", &["config", "--get-regexp", "^branch\\..*\\.gwbase$"], out);
    let err = local_children(&mut exec, "feature/base").unwrap_err();
    assert_eq!(err.to_string(), "Git command failed: fatal: bad config");
}

#[test]
fn refuse_local_children_names_them() {
    assert!(refuse_local_children("base", &vec![]).is_ok());
    let err = refuse_local_children("base", &vec!["a".to_string(), "b".to_string()]).unwrap_err();
    assert_eq!(
        err.to_string(),
        "Cleanup refused: local children (including unpublished siblings) still record 'base' as their parent: a, b. Restack them first (gw sync in each), then rerun gw cleanup."
    );
}

#[test]
fn open_child_prs_reads_the_listing() {
    let mut exec = MockCommandExecutor::new();
    exec.on_command(
        "gh",
        &["pr", "list", "--base", "base", "--state", "open", "--json", "number,headRefName"],
        CommandOutput::success(r#"[{"number": 12, "headRefName": "child"}, {"number": 15, "headRefName": "other"}]"#),
    );
    let mut client = GitHubClient::with_executor(exec);
    let prs = open_child_prs(&mut client, "base").unwrap();
    assert_eq!(prs, vec![(12, "child".to_string()), (15, "other".to_string())]);
    let err = refuse_remote_children("base", &prs).unwrap_err();
    assert_eq!(
        err.to_string(),
        "Cleanup deferred: open pull requests still target 'base': #12 (child), #15 (other). Restack them first (gw sync in each), then rerun gw cleanup."
    );
    assert!(refuse_remote_children("base", &vec![]).is_ok());
}

#[test]
fn open_child_prs_never_reads_a_failure_as_none() {
    let mut exec = MockCommandExecutor::new();
    exec.on_command(
        "gh",
        &["pr", "list", "--base", "base", "--state", "open", "--json", "number,headRefName"],
        CommandOutput::failure("HTTP 502"),
    );
    let mut client = GitHubClient::with_executor(exec);
    let err = open_child_prs(&mut client, "base").unwrap_err();
    assert_eq!(err.to_string(), "Cleanup deferred: could not check pull requests based on 'base': HTTP 502");

    let mut exec = MockCommandExecutor::new();
    exec.on_command(
        "gh",
        &["pr", "list", "--base", "base", "--state", "open", "--json", "number,headRefName"],
        CommandOutput::success("not json"),
    );
    let mut client = GitHubClient::with_executor(exec);
    let err = open_child_prs(&mut client, "base").unwrap_err();
    assert_eq!(
        err.to_string(),
        "Cleanup deferred: could not check pull requests based on 'base': unreadable pull request list"
    );
}

#[test]
fn guard_refuses_a_live_local_child_before_asking_github() {
    let mut exec = MockCommandExecutor::new();
    exec.on_command(
        "git",
        &["config", "--get-regexp", "^branch\\..*\\.gwbase$"],
        CommandOutput::success("branch.child.gwbase base\n"),
    );
    live(&mut exec, "child");
    exec.on_command("gh", &CHILD_PRS, CommandOutput::success("[]"));
    let mut client = GitHubClient::with_executor(exec);
    let err = guard_cleanup(&mut client, "base", true).unwrap_err();
    assert!(err.to_string().starts_with("Cleanup refused: local children"));
    assert!(client.executor().calls().iter().all(|c| c.program == "git"));
}

#[test]
fn guard_asks_github_only_for_a_merged_pull_request() {
    let mut exec = MockCommandExecutor::new();
    no_parents(&mut exec);
    exec.on_command("gh", &CHILD_PRS, CommandOutput::success(r#"[{"number": 9, "headRefName": "child"}]"#));
    let mut client = GitHubClient::with_executor(exec);
    assert!(guard_cleanup(&mut client, "base", false).is_ok());
    assert_eq!(client.executor().calls().len(), 1);
    let err = guard_cleanup(&mut client, "base", true).unwrap_err();
    assert!(err.to_string().starts_with("Cleanup deferred: open pull requests still target 'base': #9 (child)"));
}

#[test]
fn guard_lets_a_branch_without_dependents_go() {
    let mut exec = MockCommandExecutor::new();
    no_parents(&mut exec);
    exec.on_command("gh", &CHILD_PRS, CommandOutput::success("[]"));
    let mut client = GitHubClient::with_executor(exec);
    assert!(guard_cleanup(&mut client, "base", true).is_ok());
    assert_eq!(client.executor().calls().len(), 2);
}

#[test]
fn remote_branch_stays_while_a_child_pull_request_is_open() {
    let mut exec = MockCommandExecutor::new();
    remote_present(&mut exec);
    exec.on_command("gh", &CHILD_PRS, CommandOutput::success(r#"[{"number": 9, "headRefName": "child"}]"#));
    exec.on_command("git", &["push", "origin", "--delete", "base"], CommandOutput::success(""));
    let mut client = GitHubClient::with_executor(exec);
    let err = guarded_remote_cleanup(&mut client, "base", &Some(merged("base"))).unwrap_err();
    assert!(err.to_string().starts_with("Cleanup deferred: open pull requests still target 'base'"));
    assert!(!client.executor().calls().iter().any(is_delete));
}

#[test]
fn remote_branch_of_a_merged_pull_request_without_children_is_deleted() {
    let mut exec = MockCommandExecutor::new();
    remote_present(&mut exec);
    exec.on_command("gh", &CHILD_PRS, CommandOutput::success("[]"));
    exec.on_command("git", &["push", "origin", "--delete", "base"], CommandOutput::success(""));
    let mut client = GitHubClient::with_executor(exec);
    let handled = guarded_remote_cleanup(&mut client, "base", &Some(merged("base"))).unwrap();
    assert!(matches!(handled, RemoteHandling::Deleted));
    assert!(client.executor().calls().iter().any(is_delete));
}

#[test]
fn remote_branch_without_a_merged_pull_request_is_kept() {
    let mut exec = MockCommandExecutor::new();
    remote_present(&mut exec);
    let mut client = GitHubClient::with_executor(exec);
    let handled = guarded_remote_cleanup(&mut client, "base", &None).unwrap();
    assert!(matches!(handled, RemoteHandling::StillExists));
    assert_eq!(client.executor().calls().len(), 1);
}
