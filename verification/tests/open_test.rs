//! Which program opens a pull request.

use git_workflow::commands::open::{default_open_program, find_pr_to_open, resolve_open_program, OpenTarget};
use git_workflow::github::fixtures;
use git_workflow::github::{GitHubClient, MockScenarioBuilder};

#[test]
fn gw_cmd_takes_precedence() {
    let program = resolve_open_program(Some("gw-open"), Some("open-url"), "open");
    assert_eq!(program, "gw-open");
}

#[test]
fn falls_back_to_open_url_cmd() {
    let program = resolve_open_program(None, Some("open-url"), "open");
    assert_eq!(program, "open-url");
}

#[test]
fn falls_back_to_os_default() {
    let program = resolve_open_program(None, None, "xdg-open");
    assert_eq!(program, "xdg-open");
}

#[test]
fn empty_values_are_ignored() {
    assert_eq!(resolve_open_program(Some(""), Some("open-url"), "open"), "open-url");
    assert_eq!(resolve_open_program(Some(""), Some(""), "open"), "open");
}

#[test]
fn default_program_depends_on_the_system() {
    assert_eq!(default_open_program(true), "open");
    assert_eq!(default_open_program(false), "xdg-open");
}

#[test]
fn the_current_branch_pull_request_is_opened() {
    let executor = MockScenarioBuilder::new()
        .gh_available()
        .with_pr("feature/x", &fixtures::open_pr(5, "feature/x"))
        .build();
    let mut client = GitHubClient::with_executor(executor);
    match find_pr_to_open(&mut client, "main", "main").unwrap() {
        OpenTarget::OnHome => {}
        _ => panic!("nothing to open on the home branch"),
    }
    match find_pr_to_open(&mut client, "feature/x", "main").unwrap() {
        OpenTarget::Pr(pr) => assert_eq!(pr.number, 5),
        _ => panic!("the pull request is found"),
    }
    let executor = MockScenarioBuilder::new().gh_not_available().build();
    let mut client = GitHubClient::with_executor(executor);
    let err = find_pr_to_open(&mut client, "feature/x", "main").unwrap_err();
    assert_eq!(
        err.to_string(),
        "GitHub CLI (gh) is not available. Install it from https://cli.github.com/"
    );
}
