//! How `gw sync` plans and carries out a sync, against scripted `gh` and `git`.

use git_workflow::commands::sync::{
    abort_pending_sync, decide_sync, decision_notes, pending_recovery_hint, run_pending_sync, JournalStore,
    RecordingJournal, plan_for_recorded_base, plan_for_stacked_pr,
    read_recorded_base, required_boundary, resume_finish, resume_publish, resume_rebase, sync_default_branch_of,
    PendingSync, Plan,
};
use git_workflow::github::{CommandOutput, GitHubClient, MergeMethod, MockCommandExecutor, MockScenarioBuilder, PrInfo, PrState};

fn pr_json(number: u64, state: &str, base: &str, head: &str, merge_commit: Option<&str>) -> String {
    let mc = match merge_commit {
        Some(sha) => format!("{{\"oid\":\"{sha}\"}}"),
        None => "null".to_string(),
    };
    format!(
        "{{\"number\":{number},\"title\":\"t{number}\",\"url\":\"https://github.com/o/r/pull/{number}\",\"state\":\"{state}\",\"baseRefName\":\"{base}\",\"headRefName\":\"{head}\",\"mergeCommit\":{mc},\"mergedAt\":null}}"
    )
}

fn client_with(prs: &[(&str, String)]) -> GitHubClient<MockCommandExecutor> {
    let mut b = MockScenarioBuilder::new().gh_available();
    for (branch, json) in prs {
        b = b.with_pr(branch, json);
    }
    GitHubClient::with_executor(b.build())
}

fn ok() -> CommandOutput {
    CommandOutput::success("")
}

#[test]
fn required_boundary_never_guesses() {
    assert_eq!(required_boundary("parent", Some("abc")).unwrap(), "abc");
    assert_eq!(
        required_boundary("parent", None).unwrap_err().to_string(),
        "No valid recorded fork point for 'parent'. Refusing to infer it from a moving branch tip; recover the stack metadata before syncing."
    );
    assert_eq!(sync_default_branch_of("origin/master"), "master");
    assert_eq!(sync_default_branch_of("upstream/trunk"), "main");
}

#[test]
fn merged_parent_in_default_branch_restacks_from_the_fork_point() {
    let mut client = client_with(&[("parent", pr_json(1, "MERGED", "main", "parent", Some("m1")))]);
    client.executor_mut().on_command("git", &["cat-file", "-p", "m1"], CommandOutput::success("tree x\nparent a\n"));
    client.executor_mut().on_command("git", &["merge-base", "--is-ancestor", "m1", "origin/main"], ok());
    let (plan, base_pr) = plan_for_stacked_pr(&mut client, "parent", 2, "origin/main", Some("fork")).unwrap();
    let plan = plan.unwrap();
    assert_eq!(plan.new_base, "origin/main");
    assert_eq!(plan.boundary.as_deref(), Some("fork"));
    assert_eq!(plan.retarget_pr, Some(2));
    assert!(plan.unstack);
    assert!(!plan.rerecord_base);
    assert_eq!(base_pr.unwrap().number, 1);
}

#[test]
fn merged_parent_not_reachable_is_refused() {
    let mut client = client_with(&[("parent", pr_json(1, "MERGED", "main", "parent", Some("m1")))]);
    client.executor_mut().on_command("git", &["cat-file", "-p", "m1"], CommandOutput::success("parent a\n"));
    let err = plan_for_stacked_pr(&mut client, "parent", 2, "origin/main", Some("fork")).unwrap_err();
    assert_eq!(
        err.to_string(),
        "Cannot confirm parent PR #1 is integrated in origin/main. Fetch/retry after integration; refusing to discard its commits."
    );
}

#[test]
fn parent_merged_into_another_branch_is_refused() {
    let mut client = client_with(&[("parent", pr_json(1, "MERGED", "grandparent", "parent", Some("m1")))]);
    client.executor_mut().on_command("git", &["cat-file", "-p", "m1"], CommandOutput::success("parent a\n"));
    let err = plan_for_stacked_pr(&mut client, "parent", 2, "origin/main", Some("fork")).unwrap_err();
    assert_eq!(
        err.to_string(),
        "Parent PR #1 merged into 'grandparent', not 'main'. Refusing to drop its changes; integrate the parent stack into the default branch and reconcile its base first."
    );
    assert!(!client.executor().was_called("git", &["merge-base", "--is-ancestor", "m1", "origin/main"]));
}

#[test]
fn open_parent_is_followed_with_the_recorded_boundary() {
    let mut client = client_with(&[("parent", pr_json(1, "OPEN", "main", "parent", None))]);
    client.executor_mut().on_command("git", &["rev-parse", "--verify", "--quiet", "origin/parent"], ok());
    let (plan, _) = plan_for_stacked_pr(&mut client, "parent", 2, "origin/main", Some("fork")).unwrap();
    let plan = plan.unwrap();
    assert_eq!(plan.new_base, "origin/parent");
    assert_eq!(plan.boundary.as_deref(), Some("fork"));
    assert!(!plan.unstack);
    assert!(plan.rerecord_base);

    let mut client = client_with(&[("parent", pr_json(1, "OPEN", "main", "parent", None))]);
    client.executor_mut().on_command("git", &["rev-parse", "--verify", "--quiet", "origin/parent"], ok());
    let err = plan_for_stacked_pr(&mut client, "parent", 2, "origin/main", None).unwrap_err();
    assert!(err.to_string().starts_with("No valid recorded fork point for 'parent'"));
}

#[test]
fn closed_parent_stops_the_sync() {
    let mut client = client_with(&[("parent", pr_json(1, "CLOSED", "main", "parent", None))]);
    let (plan, base_pr) = plan_for_stacked_pr(&mut client, "parent", 2, "origin/main", Some("fork")).unwrap();
    assert!(plan.is_none());
    assert_eq!(base_pr.unwrap().number, 1);
}

#[test]
fn recorded_parent_merged_before_any_pull_request_restacks() {
    let mut client = client_with(&[("parent", pr_json(1, "MERGED", "main", "parent", Some("m1")))]);
    client.executor_mut().on_command("git", &["cat-file", "-p", "m1"], CommandOutput::success("parent a\n"));
    client.executor_mut().on_command("git", &["merge-base", "--is-ancestor", "m1", "origin/main"], ok());
    let plan = plan_for_recorded_base(&mut client, "parent", "origin/main", Some("fork")).unwrap().unwrap();
    assert!(plan.unstack);
    assert_eq!(plan.retarget_pr, None);
    assert_eq!(plan.boundary.as_deref(), Some("fork"));
}

#[test]
fn recorded_parent_still_local_is_followed_locally() {
    let executor = MockScenarioBuilder::new().gh_available().with_no_pr("parent").build();
    let mut client = GitHubClient::with_executor(executor);
    client.executor_mut().on_command("git", &["show-ref", "--verify", "--quiet", "refs/heads/parent"], ok());
    let plan = plan_for_recorded_base(&mut client, "parent", "origin/main", Some("fork")).unwrap().unwrap();
    assert_eq!(plan.new_base, "parent");
    assert!(!plan.unstack);

    let mut client = client_with(&[]);
    let err = plan_for_recorded_base(&mut client, "parent", "origin/main", Some("fork")).unwrap_err();
    assert_eq!(err.to_string(), "Git command failed: gh pr view failed: command not configured");
}

#[test]
fn pull_request_base_must_match_the_recorded_parent() {
    let mut client = client_with(&[]);
    let pr = git_workflow::github::parse_pr_json(&pr_json(2, "OPEN", "other", "child", None)).unwrap();
    let pr = client.convert_raw_to_pr_info(pr).unwrap();
    let err = decide_sync(&mut client, Some(pr), "origin/main", Some("parent".to_string()), Some("fork".to_string()))
        .unwrap_err();
    assert_eq!(
        err.to_string(),
        "GitHub PR base differs from the recorded parent. Refusing to use another parent's fork point."
    );
}

#[test]
fn plain_branch_gets_a_plain_rebase() {
    let mut client = client_with(&[]);
    let d = decide_sync(&mut client, None, "origin/main", None, None).unwrap();
    let plan = d.plan.unwrap();
    assert_eq!(plan.new_base, "origin/main");
    assert_eq!(plan.boundary, None);
    assert!(!plan.unstack);
}

#[test]
fn recorded_base_ignores_the_default_branch() {
    let mut exec = MockCommandExecutor::new();
    exec.on_command("git", &["config", "--get", "branch.child.gwBase"], CommandOutput::success("main\n"));
    let (base, sha) = read_recorded_base(&mut exec, "child", "main");
    assert_eq!(base, None);
    assert_eq!(sha, None);

    exec.on_command("git", &["config", "--get", "branch.child.gwBase"], CommandOutput::success("parent\n"));
    exec.on_command("git", &["config", "--get", "branch.child.gwBaseSha"], CommandOutput::success("abc\n"));
    let (base, sha) = read_recorded_base(&mut exec, "child", "main");
    assert_eq!(base.as_deref(), Some("parent"));
    assert_eq!(sha, None);
    exec.on_command("git", &["merge-base", "--is-ancestor", "abc", "HEAD"], ok());
    let (_, sha) = read_recorded_base(&mut exec, "child", "main");
    assert_eq!(sha.as_deref(), Some("abc"));
}

fn pending(publish: bool, expected: Option<&str>) -> PendingSync {
    PendingSync {
        branch: "child".to_string(),
        worktree: "/repo".to_string(),
        original_head: "h0".to_string(),
        rebased_head: None,
        target_sha: "t1".to_string(),
        default_branch: "main".to_string(),
        publish,
        expected_remote: expected.map(|s| s.to_string()),
        publication_finished: false,
        plan: Plan {
            new_base: "origin/main".to_string(),
            boundary: Some("fork".to_string()),
            retarget_pr: Some(2),
            unstack: true,
            rerecord_base: false,
        },
    }
}

#[test]
fn resume_rebases_onto_the_frozen_target_then_publishes_then_retargets() {
    let mut exec = MockCommandExecutor::new();
    exec.on_command("git", &["rev-parse", "--show-toplevel"], CommandOutput::success("/repo\n"));
    exec.on_command("git", &["rev-parse", "HEAD"], CommandOutput::success("h0\n"));
    exec.on_command("git", &["rebase", "--onto", "t1", "fork"], ok());
    let mut p = pending(true, Some("r0"));
    // After the rebase, HEAD reads the rebased commit.
    let changed = {
        let first = resume_rebase(&mut exec, &mut p, "child", false);
        first.unwrap()
    };
    assert!(changed);
    assert!(exec.was_called("git", &["rebase", "--onto", "t1", "fork"]));
    assert_eq!(p.rebased_head.as_deref(), Some("h0"));

    exec.on_command(
        "git",
        &["ls-remote", "--exit-code", "--heads", "origin", "child"],
        CommandOutput::success("r0\trefs/heads/child\n"),
    );
    exec.on_command("git", &["push", "--force-with-lease=refs/heads/child:r0", "origin", "child"], ok());
    let pushed = resume_publish(&mut exec, &mut p, "child").unwrap();
    assert!(pushed);
    assert!(p.publication_finished);

    let mut client = GitHubClient::with_executor(exec);
    client.executor_mut().on_command("gh", &["pr", "edit", "2", "--base", "main"], ok());
    client.executor_mut().on_command("git", &["config", "--unset", "branch.child.gwBase"], ok());
    client.executor_mut().on_command("git", &["config", "--unset", "branch.child.gwBaseSha"], ok());
    resume_finish(&mut client, &p, "child").unwrap();
    assert!(client.executor().was_called("gh", &["pr", "edit", "2", "--base", "main"]));
}

#[test]
fn publish_refuses_a_remote_that_moved() {
    let mut exec = MockCommandExecutor::new();
    exec.on_command(
        "git",
        &["ls-remote", "--exit-code", "--heads", "origin", "child"],
        CommandOutput::success("other\trefs/heads/child\n"),
    );
    let mut p = pending(true, Some("r0"));
    p.rebased_head = Some("h1".to_string());
    let err = resume_publish(&mut exec, &mut p, "child").unwrap_err();
    assert_eq!(
        err.to_string(),
        "Remote changed during pending sync. Refusing to overwrite it; preserve the journal and reconcile the remote change first."
    );
    assert!(!p.publication_finished);
    assert_eq!(exec.call_count("git"), 1);
}

#[test]
fn resume_refuses_another_owner_and_an_unfinished_rebase() {
    let mut exec = MockCommandExecutor::new();
    let mut p = pending(false, None);
    let err = resume_rebase(&mut exec, &mut p, "other", false).unwrap_err();
    assert_eq!(
        err.to_string(),
        "Unfinished sync belongs to 'child' in /repo. Finish/abort any rebase there, then rerun gw sync in that worktree."
    );
    exec.on_command("git", &["rev-parse", "--show-toplevel"], CommandOutput::success("/repo\n"));
    let err = resume_rebase(&mut exec, &mut p, "child", true).unwrap_err();
    assert_eq!(
        err.to_string(),
        "A rebase is still in progress. Resolve it with git rebase --continue (or --abort), then rerun gw sync."
    );
}

#[test]
fn abort_is_refused_after_publication() {
    let mut exec = MockCommandExecutor::new();
    exec.on_command("git", &["rev-parse", "--show-toplevel"], CommandOutput::success("/repo\n"));
    exec.on_command("git", &["rev-parse", "--abbrev-ref", "HEAD"], CommandOutput::success("child\n"));
    exec.on_command("git", &["diff", "--quiet"], ok());
    exec.on_command("git", &["diff", "--cached", "--quiet"], ok());
    exec.on_command("git", &["ls-files", "--others", "--exclude-standard"], ok());
    let mut p = pending(true, Some("r0"));
    p.publication_finished = true;
    let err = abort_pending_sync(&mut exec, &p, false).unwrap_err();
    assert_eq!(
        err.to_string(),
        "Sync was published or the remote changed. Refusing rollback; resume gw sync after reconciling the remote."
    );
    assert!(pending_recovery_hint(Some(&p)).unwrap().starts_with("Unfinished sync on 'child' in /repo."));
    assert_eq!(pending_recovery_hint(None), None);
}

fn info(number: u64, state: PrState, base: &str) -> PrInfo {
    PrInfo {
        number,
        title: format!("t{number}"),
        url: format!("https://github.com/o/r/pull/{number}"),
        state,
        base_branch: base.to_string(),
        head_branch: format!("b{number}"),
    }
}

fn plan(unstack: bool) -> Plan {
    Plan {
        new_base: "origin/main".to_string(),
        boundary: Some("abc".to_string()),
        retarget_pr: None,
        unstack,
        rerecord_base: false,
    }
}

#[test]
fn decision_notes_report_the_parent() {
    let child = Some(info(2, PrState::Open, "parent"));
    let merged = Some(info(1, PrState::Merged { method: MergeMethod::Squash, merge_commit: None }, "main"));
    let notes = decision_notes(&child, "main", Some("parent"), &Some(plan(true)), &merged);
    assert_eq!(notes.len(), 1);
    assert!(notes[0].ends_with("Base PR #1 (parent) is merged ✓"));

    let closed = Some(info(1, PrState::Closed, "main"));
    let notes = decision_notes(&child, "main", Some("parent"), &None, &closed);
    assert!(notes[0].ends_with("Base PR #1 (parent) was closed without merging."));
    assert_eq!(notes.last().unwrap(), "  gh pr reopen 1  # or retarget this PR with gh pr edit --base");
    assert_eq!(notes.len(), 4);

    let notes = decision_notes(&child, "main", Some("parent"), &None, &None);
    assert!(notes[0].ends_with("No PR found for base branch 'parent'; following origin/parent."));
    assert!(notes[1].ends_with("origin/parent does not exist. Nothing to sync."));
}

#[test]
fn decision_notes_report_a_recorded_parent() {
    let notes = decision_notes(&None, "main", Some("parent"), &Some(plan(true)), &None);
    assert!(notes[0].ends_with("Base 'parent' merged ✓ — restacking onto main"));
    let notes = decision_notes(&None, "main", Some("parent"), &None, &None);
    assert!(notes[0].ends_with("Base branch 'parent' no longer exists locally or on origin. Nothing to sync."));
    assert!(decision_notes(&None, "main", None, &Some(plan(false)), &None).is_empty());
    let retargeted = Some(info(2, PrState::Open, "main"));
    let notes = decision_notes(&retargeted, "main", Some("parent"), &Some(plan(true)), &None);
    assert!(notes[0].ends_with("Recorded base 'parent' merged and the PR now targets the default branch — restacking"));
}

/// A journal that only logs its writes.
struct LoggedJournal {
    log: std::rc::Rc<std::cell::RefCell<Vec<String>>>,
}

impl JournalStore for LoggedJournal {
    fn save(&mut self, pending: &PendingSync) -> git_workflow::error::Result<()> {
        let what = if pending.publication_finished { "save published" } else { "save rebased" };
        self.log.borrow_mut().push(what.to_string());
        Ok(())
    }

    fn remove(&mut self) -> git_workflow::error::Result<()> {
        self.log.borrow_mut().push("remove".to_string());
        Ok(())
    }
}

fn scripted_sync(push_ok: bool) -> GitHubClient<MockCommandExecutor> {
    let mut exec = MockCommandExecutor::new();
    exec.on_command("git", &["rev-parse", "--show-toplevel"], CommandOutput::success("/repo\n"));
    exec.on_command("git", &["rev-parse", "HEAD"], CommandOutput::success("h0\n"));
    exec.on_command("git", &["rebase", "--onto", "t1", "fork"], ok());
    exec.on_command(
        "git",
        &["ls-remote", "--exit-code", "--heads", "origin", "child"],
        CommandOutput::success("r0\trefs/heads/child\n"),
    );
    if push_ok {
        exec.on_command("git", &["push", "--force-with-lease=refs/heads/child:r0", "origin", "child"], ok());
    }
    exec.on_command("gh", &["pr", "edit", "2", "--base", "main"], ok());
    exec.on_command("git", &["config", "--unset", "branch.child.gwBase"], ok());
    exec.on_command("git", &["config", "--unset", "branch.child.gwBaseSha"], ok());
    GitHubClient::with_executor(exec)
}

#[test]
fn pending_sync_journals_each_step_and_removes_the_journal_last() {
    let log = std::rc::Rc::new(std::cell::RefCell::new(Vec::new()));
    let mut journal = RecordingJournal::new(LoggedJournal { log: log.clone() });
    let mut client = scripted_sync(true);
    let done = run_pending_sync(&mut client, &mut journal, pending(true, Some("r0")), "child", false).unwrap();
    assert_eq!(done, (true, true));
    assert_eq!(*log.borrow(), vec!["save rebased", "save published", "remove"]);
    assert!(client.executor().was_called("gh", &["pr", "edit", "2", "--base", "main"]));
}

#[test]
fn failed_push_keeps_the_journal_and_the_pull_request_base() {
    let log = std::rc::Rc::new(std::cell::RefCell::new(Vec::new()));
    let mut journal = RecordingJournal::new(LoggedJournal { log: log.clone() });
    let mut client = scripted_sync(false);
    assert!(run_pending_sync(&mut client, &mut journal, pending(true, Some("r0")), "child", false).is_err());
    assert_eq!(*log.borrow(), vec!["save rebased"]);
    assert!(!client.executor().was_called("gh", &["pr", "edit", "2", "--base", "main"]));
    assert!(!client.executor().was_called("git", &["config", "--unset", "branch.child.gwBase"]));
}
