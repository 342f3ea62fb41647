//! How `gw await` reads CI checks and follows a pull request.

use git_workflow::commands::await_pr::{
    ci_wait_step, classify_ci_state, finish_merged, poll_interval, react_to_terminal, CiProceed, CiState, CiStep,
    FinishMerged, NO_CI_CONFIRMATIONS,
};
use git_workflow::github::fixtures;
use git_workflow::github::{CommandOutput, GitHubClient, MergeMethod, MockScenarioBuilder, PrState};

#[test]
fn exit_zero_means_passed() {
    assert_eq!(classify_ci_state(true, Some(0), ""), CiState::Passed);
}

#[test]
fn exit_eight_means_pending() {
    assert_eq!(classify_ci_state(false, Some(8), ""), CiState::Pending);
}

#[test]
fn no_checks_reported_means_not_started() {
    assert_eq!(
        classify_ci_state(false, Some(1), "no checks reported on the 'feature/x' branch"),
        CiState::NotStarted
    );
}

#[test]
fn exit_one_with_checks_means_failed() {
    assert_eq!(classify_ci_state(false, Some(1), "1 failing check"), CiState::Failed);
}

#[test]
fn unknown_failure_retries_as_pending() {
    assert_eq!(classify_ci_state(false, None, "could not connect"), CiState::Pending);
}

fn checks_client(stderr: &str, code: i32) -> GitHubClient<git_workflow::github::MockCommandExecutor> {
    let mut out = CommandOutput::failure(stderr);
    out.code = Some(code);
    let executor = MockScenarioBuilder::new()
        .with_pr("42", &fixtures::open_pr(42, "feature/x"))
        .build();
    let mut client = GitHubClient::with_executor(executor);
    client.executor_mut().on_command("gh", &["pr", "checks", "42"], out);
    client
}

#[test]
fn no_ci_is_confirmed_before_proceeding() {
    let mut client = checks_client("no checks reported", 1);
    let mut streak = 0;
    let mut steps = 0;
    loop {
        steps += 1;
        match ci_wait_step(&mut client, 42, streak, false).unwrap() {
            CiStep::Wait { streak: s, quick } => {
                assert!(quick);
                streak = s;
            }
            CiStep::Proceed(p) => {
                assert_eq!(p, CiProceed::NoCi);
                break;
            }
            CiStep::Terminal(_) => panic!("the pull request is open"),
        }
    }
    assert_eq!(steps, NO_CI_CONFIRMATIONS);
}

#[test]
fn failed_ci_stops_unless_ignored() {
    let mut client = checks_client("1 failing check", 1);
    let err = ci_wait_step(&mut client, 42, 0, false).unwrap_err();
    assert_eq!(
        err.to_string(),
        "CI checks for PR #42 did not all pass. Fix the PR, push again, then rerun `gw await 42 --open` (or pass --ignore-ci-failure to watch regardless)."
    );
    let mut client = checks_client("1 failing check", 1);
    match ci_wait_step(&mut client, 42, 0, true).unwrap() {
        CiStep::Proceed(p) => assert_eq!(p, CiProceed::IgnoredFailure),
        _ => panic!("an ignored failure proceeds"),
    }
}

#[test]
fn pending_checks_keep_waiting_on_the_regular_cadence() {
    let mut client = checks_client("", 8);
    match ci_wait_step(&mut client, 42, 2, false).unwrap() {
        CiStep::Wait { streak, quick } => {
            assert_eq!(streak, 0);
            assert!(!quick);
        }
        _ => panic!("pending checks wait"),
    }
}

#[test]
fn a_merged_pull_request_ends_the_ci_wait() {
    let executor = MockScenarioBuilder::new()
        .with_pr("42", &fixtures::merged_pr(42, "abc"))
        .with_merge_commit("abc", 2)
        .build();
    let mut client = GitHubClient::with_executor(executor);
    match ci_wait_step(&mut client, 42, 0, false).unwrap() {
        CiStep::Terminal(state) => assert!(state.is_merged()),
        _ => panic!("merged is terminal"),
    }
}

#[test]
fn merge_follow_up_targets_the_head_branch() {
    assert_eq!(finish_merged("", false), FinishMerged::UnknownBranch);
    assert_eq!(finish_merged("feature/x", true), FinishMerged::Ready("feature/x".to_string()));
    assert_eq!(finish_merged("feature/x", false), FinishMerged::Cleanup("feature/x".to_string()));
    assert_eq!(poll_interval(0), 1);
    assert_eq!(poll_interval(30), 30);
    let merged = PrState::Merged { method: MergeMethod::Squash, merge_commit: None };
    assert_eq!(
        react_to_terminal(&merged, 7),
        ("PR #7 merged!".to_string(), "PR #7 merged".to_string())
    );
    assert_eq!(
        react_to_terminal(&PrState::Closed, 7),
        ("PR #7 was closed without merging".to_string(), "PR #7 closed without merging".to_string())
    );
}
