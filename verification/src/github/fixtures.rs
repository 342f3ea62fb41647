//! Ready-made `gh pr view --json` outputs for common pull request situations.

use vstd::prelude::*;

use crate::text::{cat3, cat5, decimal_view, u64_to_decimal};

verus! {

/// The JSON of pull request `n` with the given middle part and tail.
pub open spec fn pr_json(n: u64, middle: Seq<char>, tail: Seq<char>) -> Seq<char> {
    "{\"number\":"@ + decimal_view(n as nat) + middle + decimal_view(n as nat) + tail
}

fn pr_json_text(number: u64, middle: &str, tail: &str) -> (r: String)
    ensures
        r@ == pr_json(number, middle@, tail@),
{
    let n = u64_to_decimal(number);
    cat5("{\"number\":", n.as_str(), middle, n.as_str(), tail)
}

/// An open pull request `number` for `branch`, based on `main`.
pub fn open_pr(number: u64, branch: &str) -> (r: String)
    ensures
        r@ == pr_json(
            number,
            ",\"title\":\"feat: add feature\",\"url\":\"https://github.com/owner/repo/pull/"@,
            "\",\"state\":\"OPEN\",\"baseRefName\":\"main\",\"headRefName\":\""@ + branch@
                + "\",\"mergeCommit\":null,\"mergedAt\":null}"@,
        ),
{
    let tail = cat3(
        "\",\"state\":\"OPEN\",\"baseRefName\":\"main\",\"headRefName\":\"",
        branch,
        "\",\"mergeCommit\":null,\"mergedAt\":null}",
    );
    pr_json_text(
        number,
        ",\"title\":\"feat: add feature\",\"url\":\"https://github.com/owner/repo/pull/",
        tail.as_str(),
    )
}

/// A pull request `number` merged into `main` with the merge commit `merge_commit`.
pub fn merged_pr(number: u64, merge_commit: &str) -> (r: String)
    ensures
        r@ == pr_json(
            number,
            ",\"title\":\"feat: merged feature\",\"url\":\"https://github.com/owner/repo/pull/"@,
            "\",\"state\":\"MERGED\",\"baseRefName\":\"main\",\"headRefName\":\"feature/merged\",\"mergeCommit\":{\"oid\":\""@
                + merge_commit@ + "\"},\"mergedAt\":\"2024-01-01T00:00:00Z\"}"@,
        ),
{
    let tail = cat3(
        "\",\"state\":\"MERGED\",\"baseRefName\":\"main\",\"headRefName\":\"feature/merged\",\"mergeCommit\":{\"oid\":\"",
        merge_commit,
        "\"},\"mergedAt\":\"2024-01-01T00:00:00Z\"}",
    );
    pr_json_text(
        number,
        ",\"title\":\"feat: merged feature\",\"url\":\"https://github.com/owner/repo/pull/",
        tail.as_str(),
    )
}

/// A pull request `number` merged by rebase, without a merge commit.
pub fn merged_pr_rebase(number: u64) -> (r: String)
    ensures
        r@ == pr_json(
            number,
            ",\"title\":\"feat: rebased feature\",\"url\":\"https://github.com/owner/repo/pull/"@,
            "\",\"state\":\"MERGED\",\"baseRefName\":\"main\",\"headRefName\":\"feature/rebased\",\"mergeCommit\":null,\"mergedAt\":\"2024-01-01T00:00:00Z\"}"@,
        ),
{
    pr_json_text(
        number,
        ",\"title\":\"feat: rebased feature\",\"url\":\"https://github.com/owner/repo/pull/",
        "\",\"state\":\"MERGED\",\"baseRefName\":\"main\",\"headRefName\":\"feature/rebased\",\"mergeCommit\":null,\"mergedAt\":\"2024-01-01T00:00:00Z\"}",
    )
}

/// A pull request `number` closed without merging.
pub fn closed_pr(number: u64) -> (r: String)
    ensures
        r@ == pr_json(
            number,
            ",\"title\":\"wip: abandoned\",\"url\":\"https://github.com/owner/repo/pull/"@,
            "\",\"state\":\"CLOSED\",\"baseRefName\":\"main\",\"headRefName\":\"feature/abandoned\",\"mergeCommit\":null,\"mergedAt\":null}"@,
        ),
{
    pr_json_text(
        number,
        ",\"title\":\"wip: abandoned\",\"url\":\"https://github.com/owner/repo/pull/",
        "\",\"state\":\"CLOSED\",\"baseRefName\":\"main\",\"headRefName\":\"feature/abandoned\",\"mergeCommit\":null,\"mergedAt\":null}",
    )
}

/// An open pull request `number` with a Japanese title.
pub fn pr_with_japanese_title(number: u64) -> (r: String)
    ensures
        r@ == pr_json(
            number,
            ",\"title\":\"feat: 日本語タイトル\",\"url\":\"https://github.com/owner/repo/pull/"@,
            "\",\"state\":\"OPEN\",\"baseRefName\":\"main\",\"headRefName\":\"feature/jp\",\"mergeCommit\":null,\"mergedAt\":null}"@,
        ),
{
    pr_json_text(
        number,
        ",\"title\":\"feat: 日本語タイトル\",\"url\":\"https://github.com/owner/repo/pull/",
        "\",\"state\":\"OPEN\",\"baseRefName\":\"main\",\"headRefName\":\"feature/jp\",\"mergeCommit\":null,\"mergedAt\":null}",
    )
}

/// An open pull request `number` based on `develop`.
pub fn pr_with_develop_base(number: u64) -> (r: String)
    ensures
        r@ == pr_json(
            number,
            ",\"title\":\"feat: develop branch\",\"url\":\"https://github.com/owner/repo/pull/"@,
            "\",\"state\":\"OPEN\",\"baseRefName\":\"develop\",\"headRefName\":\"feature/develop-based\",\"mergeCommit\":null,\"mergedAt\":null}"@,
        ),
{
    pr_json_text(
        number,
        ",\"title\":\"feat: develop branch\",\"url\":\"https://github.com/owner/repo/pull/",
        "\",\"state\":\"OPEN\",\"baseRefName\":\"develop\",\"headRefName\":\"feature/develop-based\",\"mergeCommit\":null,\"mergedAt\":null}",
    )
}

} // verus!
