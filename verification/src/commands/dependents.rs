//! The branches stacked on a branch, which must be restacked before the
//! branch may be cleaned up: local branches that record it as their parent
//! (published or not, in any worktree), and open pull requests based on it.

use vstd::prelude::*;

use crate::error::{message_view, GwError, GwErrorView};
use crate::git::query::show_ref_args;
use crate::git::{extends, git_call_at, lemma_extends, unit_view};
use crate::commands::cleanup::{handle_remote_branch, opt_pr, remote_handled, RemoteHandling};
use crate::github::client::{args_view, ran_ok, CallRecord, CommandExecutor, CommandOutputView, GitHubClient};
use crate::github::types::PrInfo;
use crate::github::json::{json_parse, parse_json, JsonValue, JsonValueView};
use crate::github::parser::{number_field, read_number, read_string, string_field};
use crate::text::{
    cat, cat3, decimal_view, find, find_view, join, lemma_find_first, occurs_at, join_view, lines, lines_view, seq_starts_with, slice_chars,
    starts_with, str_eq, strings_view, trim, trim_view, u64_to_decimal,
};

verus! {

/// The arguments that list every recorded parent (`branch.<name>.gwbase`).
pub open spec fn parent_config_args() -> Seq<Seq<char>> {
    seq!["config"@, "--get-regexp"@, "^branch\\..*\\.gwbase$"@]
}

/// A `branch.<name>.gwbase <parent>` line of that listing, as (name, parent).
pub open spec fn parent_entry(line: Seq<char>) -> Option<(Seq<char>, Seq<char>)> {
    match find_view(line, " "@) {
        None => None,
        Some(i) => {
            let key = line.take(i as int);
            let value = line.skip(i as int + 1);
            if key.len() >= 14 && seq_starts_with(key, "branch."@) && key.skip(key.len() - 7) == ".gwbase"@ {
                Some((key.subrange(7, key.len() - 7), value))
            } else {
                None
            }
        },
    }
}

/// The listing line `branch.<name>.gwbase <parent>` of a branch name without
/// spaces is always read as the entry (name, parent), whatever the name holds
/// (slashes included) and whatever the parent is.
pub proof fn lemma_listing_line_read(name: Seq<char>, parent: Seq<char>)
    requires
        !name.contains(' '),
    ensures
        parent_entry("branch."@ + name + ".gwbase "@ + parent) == Some((name, parent)),
{
    reveal_strlit("branch.");
    reveal_strlit(".gwbase ");
    reveal_strlit(".gwbase");
    reveal_strlit(" ");
    let line = "branch."@ + name + ".gwbase "@ + parent;
    let i: int = name.len() as int + 14;
    assert(line[i] == ' ');
    assert(occurs_at(line, " "@, i)) by {
        assert(line.subrange(i, i + 1) =~= " "@);
    }
    assert forall|j: int| 0 <= j < i implies !occurs_at(line, " "@, j) by {
        if occurs_at(line, " "@, j) {
            assert(line.subrange(j, j + 1)[0] == ' ');
            assert(line[j] == ' ');
            if 7 <= j < 7 + name.len() {
                assert(name[j - 7] == ' ');
                assert(name.contains(' '));
            }
        }
    }
    lemma_find_first(line, " "@, i as nat);
    let key = line.take(i);
    assert(key =~= "branch."@ + name + ".gwbase"@);
    assert(line.skip(i + 1) =~= parent);
    assert(key.take(7) =~= "branch."@);
    assert(key.skip(key.len() - 7) =~= ".gwbase"@);
    assert(key.subrange(7, key.len() - 7) =~= name);
}

/// The branches among `lines` that record `target` as their parent (other than `target` itself).
pub open spec fn child_candidates(lines: Seq<Seq<char>>, target: Seq<char>) -> Seq<Seq<char>>
    decreases lines.len(),
{
    if lines.len() == 0 {
        seq![]
    } else {
        let rest = child_candidates(lines.drop_last(), target);
        match parent_entry(lines.last()) {
            Some((name, parent)) => if parent == target && name != target {
                rest.push(name)
            } else {
                rest
            },
            None => rest,
        }
    }
}

/// The listing's lines: none when git found no recorded parent (exit code 1).
pub open spec fn listing_lines(r: Result<CommandOutputView, GwErrorView>) -> Result<Seq<Seq<char>>, GwErrorView> {
    match r {
        Err(e) => Err(e),
        Ok(o) => if o.success {
            Ok(lines_view(trim_view(o.stdout)))
        } else if o.code == Some(1i32) {
            Ok(seq![])
        } else {
            Err(GwErrorView::GitCommandFailed(trim_view(o.stderr)))
        },
    }
}

/// The candidates whose `show-ref` checks (from record `start` of `h` on, one per candidate) found them.
pub open spec fn live_among(h: Seq<CallRecord>, start: int, cands: Seq<Seq<char>>) -> Seq<Seq<char>>
    decreases cands.len(),
{
    if cands.len() == 0 {
        seq![]
    } else {
        let rest = live_among(h, start, cands.drop_last());
        if ran_ok(h[start + cands.len() - 1].result) {
            rest.push(cands.last())
        } else {
            rest
        }
    }
}

/// The candidates for the children of `target` that the listing at record `n` of `h` shows.
pub open spec fn candidates_at(h: Seq<CallRecord>, n: int, target: Seq<char>) -> Seq<Seq<char>> {
    match listing_lines(h[n].result) {
        Ok(ls) => child_candidates(ls, target),
        Err(_) => seq![],
    }
}

/// The view of a list result.
pub open spec fn names_result_view(r: Result<Vec<String>, GwError>) -> Result<Seq<Seq<char>>, GwErrorView> {
    match r {
        Ok(v) => Ok(strings_view(v@)),
        Err(e) => Err(e@),
    }
}

/// The record of parsing a listing line.
fn parse_parent_entry(line: &str) -> (r: Option<(String, String)>)
    ensures
        match r {
            Some((name, parent)) => parent_entry(line@) == Some((name@, parent@)),
            None => parent_entry(line@) is None,
        },
{
    proof {
        reveal_strlit(" ");
        reveal_strlit("branch.");
        reveal_strlit(".gwbase");
    }
    let i = match find(line, " ") {
        Some(i) => i,
        None => {
            return None;
        },
    };
    let n = line.unicode_len();
    let key = slice_chars(line, 0, i);
    let value = slice_chars(line, i + 1, n);
    assert(key@ =~= line@.take(i as int));
    assert(value@ =~= line@.skip(i + 1));
    let k = key.unicode_len();
    if k < 14 || !starts_with(key.as_str(), "branch.") {
        return None;
    }
    let tail = slice_chars(key.as_str(), k - 7, k);
    assert(tail@ =~= key@.skip(k - 7));
    if !str_eq(tail.as_str(), ".gwbase") {
        return None;
    }
    let name = slice_chars(key.as_str(), 7, k - 7);
    Some((name, value))
}

/// The local branches, live in this repository (any worktree), that record
/// `target` as their stacked parent.
pub fn local_children<E: CommandExecutor>(exec: &mut E, target: &str) -> (r: Result<Vec<String>, GwError>)
    ensures
        ({
            let h0 = old(exec).history();
            let h = final(exec).history();
            let n = h0.len() as int;
            let cands = candidates_at(h, n, target@);
            &&& extends(h0, h)
            &&& git_call_at(h, n, parent_config_args())
            &&& match listing_lines(h[n].result) {
                Err(e) => h.len() == n + 1 && names_result_view(r) == Err::<Seq<Seq<char>>, GwErrorView>(e),
                Ok(_) => {
                    &&& h.len() == n + 1 + cands.len()
                    &&& forall|k: int| 0 <= k < cands.len() ==> git_call_at(h, n + 1 + k, show_ref_args(#[trigger] cands[k]))
                    &&& names_result_view(r) == Ok::<Seq<Seq<char>>, GwErrorView>(live_among(h, n + 1, cands))
                },
            }
        }),
{
    let ghost h0 = exec.history();
    let ghost n = h0.len() as int;
    let out = exec.execute("git", &["config", "--get-regexp", "^branch\\..*\\.gwbase$"]);
    let ghost h1 = exec.history();
    proof {
        assert(args_view(seq!["config", "--get-regexp", "^branch\\..*\\.gwbase$"]) =~= parent_config_args());
        assert(h1.drop_last() =~= h0);
    }
    let text = match out {
        Err(e) => {
            assert(exec.history().take(n) =~= h0);
            return Err(e);
        },
        Ok(o) => {
            if o.success {
                trim(o.stdout.as_str())
            } else if o.code == Some(1i32) {
                assert(exec.history().take(n) =~= h0);
                let empty: Vec<String> = Vec::new();
                assert(strings_view(empty@) =~= Seq::<Seq<char>>::empty());
                return Ok(empty);
            } else {
                assert(exec.history().take(n) =~= h0);
                return Err(GwError::GitCommandFailed(trim(o.stderr.as_str())));
            }
        },
    };
    let ls = lines(text.as_str());
    let ghost lv = strings_view(ls@);
    let mut cands: Vec<String> = Vec::new();
    let mut i: usize = 0;
    while i < ls.len()
        invariant
            i <= ls.len(),
            lv == strings_view(ls@),
            strings_view(cands@) == child_candidates(lv.take(i as int), target@),
        decreases ls.len() - i,
    {
        proof {
            assert(lv.take(i + 1).drop_last() =~= lv.take(i as int));
            assert(lv.take(i + 1).last() == ls@[i as int]@);
        }
        match parse_parent_entry(ls[i].as_str()) {
            Some((name, parent)) => {
                if str_eq(parent.as_str(), target) && !str_eq(name.as_str(), target) {
                    let ghost before = strings_view(cands@);
                    cands.push(name);
                    assert(strings_view(cands@) =~= before.push(name@));
                }
            },
            None => {},
        }
        i = i + 1;
    }
    assert(lv.take(ls.len() as int) =~= lv);
    let ghost cv = strings_view(cands@);
    assert(cv == candidates_at(h1, n, target@));
    let mut live: Vec<String> = Vec::new();
    let mut k: usize = 0;
    assert(cv.take(0) =~= Seq::<Seq<char>>::empty());
    assert(strings_view(live@) =~= Seq::<Seq<char>>::empty());
    assert(exec.history().take(h1.len() as int) =~= h1);
    while k < cands.len()
        invariant
            k <= cands.len(),
            cv == strings_view(cands@),
            cv == candidates_at(exec.history(), n, target@),
            exec.history().len() == n + 1 + k,
            extends(h1, exec.history()),
            h1.len() == n + 1,
            n == h0.len(),
            h1.drop_last() == h0,
            forall|j: int| 0 <= j < k ==> git_call_at(exec.history(), n + 1 + j, show_ref_args(#[trigger] cv[j])),
            strings_view(live@) == live_among(exec.history(), n + 1, cv.take(k as int)),
        decreases cands.len() - k,
    {
        let ghost hb = exec.history();
        let found = crate::git::query::branch_exists(exec, cands[k].as_str());
        proof {
            let ha = exec.history();
            assert(ha.drop_last() == hb);
            assert(ha.take(hb.len() as int) =~= hb);
            lemma_extends(hb, ha);
            assert(extends(h1, ha)) by {
                crate::git::lemma_extends_trans(h1, hb, ha);
            }
            assert(ha[n] == ha.drop_last()[n]);
            assert forall|j: int| 0 <= j < k implies git_call_at(ha, n + 1 + j, show_ref_args(#[trigger] cv[j])) by {
                assert(ha[n + 1 + j] == ha.drop_last()[n + 1 + j]);
            }
            assert(cv.take(k + 1).drop_last() =~= cv.take(k as int));
            lemma_live_among_frame(hb, ha, n + 1, cv.take(k as int));
        }
        if found {
            let ghost before = strings_view(live@);
            live.push(cands[k].clone());
            assert(strings_view(live@) =~= before.push(cv[k as int]));
        }
        k = k + 1;
    }
    proof {
        assert(cv.take(cands.len() as int) =~= cv);
        assert(exec.history().take(n) =~= h0) by {
            let h = exec.history();
            lemma_extends(h1, h);
            assert forall|j: int| 0 <= j < n implies h[j] == h0[j] by {
                assert(h[j] == h1[j]);
                assert(h1[j] == h1.drop_last()[j]);
            }
        }
    }
    Ok(live)
}

/// The live candidates read the same in a continuation of the history.
proof fn lemma_live_among_frame(h1: Seq<CallRecord>, h2: Seq<CallRecord>, start: int, cands: Seq<Seq<char>>)
    requires
        extends(h1, h2),
        0 <= start,
        start + cands.len() <= h1.len(),
    ensures
        live_among(h2, start, cands) == live_among(h1, start, cands),
    decreases cands.len(),
{
    if cands.len() > 0 {
        lemma_extends(h1, h2);
        assert(h2[start + cands.len() - 1] == h1[start + cands.len() - 1]);
        lemma_live_among_frame(h1, h2, start, cands.drop_last());
    }
}

/// Every listed branch that records `target` as its parent (and is not
/// `target` itself) is a candidate child of `target`.
pub proof fn lemma_recorded_child_is_candidate(lines: Seq<Seq<char>>, target: Seq<char>, i: int, name: Seq<char>)
    requires
        0 <= i < lines.len(),
        parent_entry(lines[i]) == Some((name, target)),
        name != target,
    ensures
        child_candidates(lines, target).contains(name),
    decreases lines.len(),
{
    if i == lines.len() - 1 {
        assert(child_candidates(lines, target).last() == name);
    } else {
        lemma_recorded_child_is_candidate(lines.drop_last(), target, i, name);
        let rest = child_candidates(lines.drop_last(), target);
        let j = choose|j: int| 0 <= j < rest.len() && rest[j] == name;
        match parent_entry(lines.last()) {
            Some((nm, parent)) => if parent == target && nm != target {
                assert(rest.push(nm)[j] == name);
            },
            None => {},
        }
    }
}

/// Every candidate whose existence check succeeded is reported as a live
/// child, so its presence alone makes cleanup refuse.
pub proof fn lemma_live_candidate_is_reported(h: Seq<CallRecord>, start: int, cands: Seq<Seq<char>>, k: int)
    requires
        0 <= k < cands.len(),
        ran_ok(h[start + k].result),
    ensures
        live_among(h, start, cands).contains(cands[k]),
    decreases cands.len(),
{
    if k == cands.len() - 1 {
        assert(live_among(h, start, cands).last() == cands[k]);
    } else {
        lemma_live_candidate_is_reported(h, start, cands.drop_last(), k);
        let rest = live_among(h, start, cands.drop_last());
        let j = choose|j: int| 0 <= j < rest.len() && rest[j] == cands[k];
        if ran_ok(h[start + cands.len() - 1].result) {
            assert(rest.push(cands.last())[j] == cands[k]);
        }
    }
}

/// The arguments listing the open pull requests based on `target`.
pub open spec fn child_pr_args(target: Seq<char>) -> Seq<Seq<char>> {
    seq!["pr"@, "list"@, "--base"@, target, "--state"@, "open"@, "--json"@, "number,headRefName"@]
}

/// A pull request item of that listing: its number and head branch.
pub open spec fn child_pr_item(text: Seq<char>) -> Option<(u64, Seq<char>)> {
    match json_parse(text) {
        Some(JsonValueView::Object(m)) => match (number_field(m), string_field(m, "headRefName"@, Seq::empty())) {
            (Ok(n), Ok(h)) => Some((n, h)),
            _ => None,
        },
        _ => None,
    }
}

/// The items of the listing, when every one of them reads.
pub open spec fn child_pr_items(items: Seq<Seq<char>>) -> Option<Seq<(u64, Seq<char>)>>
    decreases items.len(),
{
    if items.len() == 0 {
        Some(seq![])
    } else {
        match (child_pr_items(items.drop_last()), child_pr_item(items.last())) {
            (Some(rest), Some(it)) => Some(rest.push(it)),
            _ => None,
        }
    }
}

/// The refusal when the open pull requests based on `target` cannot be listed.
pub open spec fn child_query_error(target: Seq<char>, reason: Seq<char>) -> GwErrorView {
    GwErrorView::Other("Cleanup deferred: could not check pull requests based on '"@ + target + "': "@ + reason)
}

/// What the listing of open pull requests based on `target` gives.
pub open spec fn child_prs_view(r: Result<CommandOutputView, GwErrorView>, target: Seq<char>) -> Result<
    Seq<(u64, Seq<char>)>,
    GwErrorView,
> {
    match r {
        Err(e) => Err(child_query_error(target, message_view(e))),
        Ok(o) => if !o.success {
            Err(child_query_error(target, trim_view(o.stderr)))
        } else {
            match json_parse(o.stdout) {
                Some(JsonValueView::Array(items)) => match child_pr_items(items) {
                    Some(v) => Ok(v),
                    None => Err(child_query_error(target, "unreadable pull request list"@)),
                },
                _ => Err(child_query_error(target, "unreadable pull request list"@)),
            }
        },
    }
}

/// The view of a pull request list result.
pub open spec fn prs_result_view(r: Result<Vec<(u64, String)>, GwError>) -> Result<Seq<(u64, Seq<char>)>, GwErrorView> {
    match r {
        Ok(v) => Ok(v@.map_values(|p: (u64, String)| (p.0, p.1@))),
        Err(e) => Err(e@),
    }
}

/// The open pull requests based on `target` (number and head branch). A
/// listing that fails or cannot be read is an error, never "none".
pub fn open_child_prs<E: CommandExecutor>(client: &mut GitHubClient<E>, target: &str) -> (r: Result<
    Vec<(u64, String)>,
    GwError,
>)
    ensures
        final(client).history().len() == old(client).history().len() + 1,
        final(client).history().drop_last() == old(client).history(),
        final(client).history().last().program == "gh"@,
        final(client).history().last().args == child_pr_args(target@),
        final(client).history().last().dir is None,
        prs_result_view(r) == child_prs_view(final(client).history().last().result, target@),
{
    let out = client.executor_mut().execute(
        "gh",
        &["pr", "list", "--base", target, "--state", "open", "--json", "number,headRefName"],
    );
    proof {
        assert(args_view(seq!["pr", "list", "--base", target, "--state", "open", "--json", "number,headRefName"])
            =~= child_pr_args(target@));
        assert(client.history().drop_last() =~= old(client).history());
    }
    let o = match out {
        Err(e) => {
            let m = e.to_string();
            return Err(child_query_failure(target, m.as_str()));
        },
        Ok(o) => o,
    };
    if !o.success {
        let t = trim(o.stderr.as_str());
        return Err(child_query_failure(target, t.as_str()));
    }
    let items = match parse_json(o.stdout.as_str()) {
        Some(JsonValue::Array(items)) => items,
        _ => {
            return Err(child_query_failure(target, "unreadable pull request list"));
        },
    };
    match read_child_items(&items) {
        Some(found) => Ok(found),
        None => Err(child_query_failure(target, "unreadable pull request list")),
    }
}

/// The number and head branch of one listed pull request.
fn read_child_item(text: &str) -> (r: Option<(u64, String)>)
    ensures
        match r {
            Some(p) => child_pr_item(text@) == Some((p.0, p.1@)),
            None => child_pr_item(text@) is None,
        },
{
    proof {
        reveal_strlit("");
    }
    match parse_json(text) {
        Some(JsonValue::Object(m)) => {
            let n = read_number(&m);
            let h = read_string(&m, "headRefName", "");
            assert(""@ =~= Seq::<char>::empty());
            match (n, h) {
                (Ok(n), Ok(h)) => Some((n, h)),
                _ => None,
            }
        },
        _ => None,
    }
}

/// Every listed pull request, or `None` when one of them cannot be read.
fn read_child_items(items: &Vec<String>) -> (r: Option<Vec<(u64, String)>>)
    ensures
        match r {
            Some(v) => child_pr_items(items@.map_values(|e: String| e@)) == Some(
                v@.map_values(|p: (u64, String)| (p.0, p.1@)),
            ),
            None => child_pr_items(items@.map_values(|e: String| e@)) is None,
        },
{
    let ghost iv = items@.map_values(|e: String| e@);
    let mut found: Vec<(u64, String)> = Vec::new();
    let mut i: usize = 0;
    assert(iv.take(0) =~= Seq::<Seq<char>>::empty());
    assert(found@.map_values(|p: (u64, String)| (p.0, p.1@)) =~= Seq::<(u64, Seq<char>)>::empty());
    while i < items.len()
        invariant
            i <= items.len(),
            iv == items@.map_values(|e: String| e@),
            child_pr_items(iv.take(i as int)) == Some(found@.map_values(|p: (u64, String)| (p.0, p.1@))),
        decreases items.len() - i,
    {
        proof {
            assert(iv.take(i + 1).drop_last() =~= iv.take(i as int));
            assert(iv.take(i + 1).last() == items@[i as int]@);
        }
        match read_child_item(items[i].as_str()) {
            Some(it) => {
                let ghost before = found@.map_values(|p: (u64, String)| (p.0, p.1@));
                found.push(it);
                assert(found@.map_values(|p: (u64, String)| (p.0, p.1@)) =~= before.push((it.0, it.1@)));
            },
            None => {
                proof {
                    lemma_child_items_fail(iv, i as int);
                }
                return None;
            },
        }
        i = i + 1;
    }
    assert(iv.take(items.len() as int) =~= iv);
    Some(found)
}

/// One unreadable item makes the whole listing unreadable.
proof fn lemma_child_items_fail(items: Seq<Seq<char>>, i: int)
    requires
        0 <= i < items.len(),
        child_pr_item(items[i]) is None,
    ensures
        child_pr_items(items) is None,
    decreases items.len(),
{
    if i < items.len() - 1 {
        lemma_child_items_fail(items.drop_last(), i);
    }
}

/// The refusal when the pull requests based on `target` cannot be listed.
fn child_query_failure(target: &str, reason: &str) -> (e: GwError)
    ensures
        e@ == child_query_error(target@, reason@),
{
    let head = cat3("Cleanup deferred: could not check pull requests based on '", target, "': ");
    GwError::Other(cat(head.as_str(), reason))
}

/// The refusal while local branches still record `target` as their parent.
pub open spec fn local_children_error(target: Seq<char>, children: Seq<Seq<char>>) -> GwErrorView {
    GwErrorView::Other(
        "Cleanup refused: local children (including unpublished siblings) still record '"@ + target
            + "' as their parent: "@ + join_view(children, ", "@)
            + ". Restack them first (gw sync in each), then rerun gw cleanup."@,
    )
}

/// Refuse to clean up `target` while local branches record it as their parent.
pub fn refuse_local_children(target: &str, children: &Vec<String>) -> (r: Result<(), GwError>)
    ensures
        children.len() == 0 ==> r is Ok,
        children.len() > 0 ==> (r matches Err(e) && e@ == local_children_error(target@, strings_view(children@))),
{
    if children.len() == 0 {
        return Ok(());
    }
    let names = join(children, ", ");
    let head = cat3(
        "Cleanup refused: local children (including unpublished siblings) still record '",
        target,
        "' as their parent: ",
    );
    Err(
        GwError::Other(
            cat3(head.as_str(), names.as_str(), ". Restack them first (gw sync in each), then rerun gw cleanup."),
        ),
    )
}

/// How an open child pull request is named: `#<number> (<head>)`.
pub open spec fn child_pr_label(p: (u64, Seq<char>)) -> Seq<char> {
    "#"@ + decimal_view(p.0 as nat) + " ("@ + p.1 + ")"@
}

/// The refusal while open pull requests are based on `target`.
pub open spec fn remote_children_error(target: Seq<char>, prs: Seq<(u64, Seq<char>)>) -> GwErrorView {
    GwErrorView::Other(
        "Cleanup deferred: open pull requests still target '"@ + target + "': "@ + join_view(
            prs.map_values(|p: (u64, Seq<char>)| child_pr_label(p)),
            ", "@,
        ) + ". Restack them first (gw sync in each), then rerun gw cleanup."@,
    )
}

/// Refuse to clean up `target` while open pull requests are based on it.
pub fn refuse_remote_children(target: &str, prs: &Vec<(u64, String)>) -> (r: Result<(), GwError>)
    ensures
        prs.len() == 0 ==> r is Ok,
        prs.len() > 0 ==> (r matches Err(e) && e@ == remote_children_error(
            target@,
            prs@.map_values(|p: (u64, String)| (p.0, p.1@)),
        )),
{
    if prs.len() == 0 {
        return Ok(());
    }
    let mut labels: Vec<String> = Vec::new();
    let mut i: usize = 0;
    let ghost pv = prs@.map_values(|p: (u64, String)| (p.0, p.1@));
    while i < prs.len()
        invariant
            i <= prs.len(),
            pv == prs@.map_values(|p: (u64, String)| (p.0, p.1@)),
            strings_view(labels@) == pv.take(i as int).map_values(|p: (u64, Seq<char>)| child_pr_label(p)),
        decreases prs.len() - i,
    {
        let d = u64_to_decimal(prs[i].0);
        let label = cat(cat3("#", d.as_str(), " (").as_str(), cat(prs[i].1.as_str(), ")").as_str());
        let ghost before = strings_view(labels@);
        assert(label@ =~= child_pr_label(pv[i as int]));
        labels.push(label);
        proof {
            assert(strings_view(labels@) =~= before.push(child_pr_label(pv[i as int])));
            assert(pv.take(i + 1).map_values(|p: (u64, Seq<char>)| child_pr_label(p)) =~= pv.take(
                i as int,
            ).map_values(|p: (u64, Seq<char>)| child_pr_label(p)).push(child_pr_label(pv[i as int])));
        }
        i = i + 1;
    }
    assert(pv.take(prs.len() as int) =~= pv);
    let names = join(&labels, ", ");
    let head = cat3("Cleanup deferred: open pull requests still target '", target, "': ");
    Err(
        GwError::Other(
            cat3(head.as_str(), names.as_str(), ". Restack them first (gw sync in each), then rerun gw cleanup."),
        ),
    )
}

/// What the open pull requests based on `target` (listed by record `r`)
/// allow: nothing, while one is open or when they cannot be listed.
pub open spec fn remote_guard(r: Result<CommandOutputView, GwErrorView>, target: Seq<char>) -> Result<(), GwErrorView> {
    match child_prs_view(r, target) {
        Err(e) => Err(e),
        Ok(prs) => if prs.len() > 0 {
            Err(remote_children_error(target, prs))
        } else {
            Ok(())
        },
    }
}

/// Whether the branches stacked on `target` (records from `n` of `h` on) let
/// it be cleaned up: not while a live local branch records it as its parent;
/// when its pull request merged (`merged`), not while open pull requests are
/// based on it either, nor when they cannot be listed.
pub open spec fn guard_result(h: Seq<CallRecord>, n: int, target: Seq<char>, merged: bool) -> Result<(), GwErrorView> {
    match listing_lines(h[n].result) {
        Err(e) => Err(e),
        Ok(_) => {
            let cands = candidates_at(h, n, target);
            let live = live_among(h, n + 1, cands);
            if live.len() > 0 {
                Err(local_children_error(target, live))
            } else if !merged {
                Ok(())
            } else {
                remote_guard(h[n + 1 + cands.len()].result, target)
            }
        },
    }
}

/// Whether the guard asks GitHub for the open pull requests based on `target`.
pub open spec fn guard_asks_github(h: Seq<CallRecord>, n: int, target: Seq<char>, merged: bool) -> bool {
    &&& listing_lines(h[n].result) is Ok
    &&& live_among(h, n + 1, candidates_at(h, n, target)).len() == 0
    &&& merged
}

/// The record `i` of `h` lists the open pull requests based on `target`.
pub open spec fn child_pr_call_at(h: Seq<CallRecord>, i: int, target: Seq<char>) -> bool {
    &&& 0 <= i < h.len()
    &&& h[i].program == "gh"@
    &&& h[i].args == child_pr_args(target)
    &&& h[i].dir is None
}

/// The runs of the cleanup guard for `target` start at record `n` of `h`: the
/// listing of recorded parents, a `show-ref` check per candidate child, and,
/// when it asks GitHub, the listing of open pull requests based on `target`.
pub open spec fn guard_calls_at(h: Seq<CallRecord>, n: int, target: Seq<char>, merged: bool) -> bool {
    let cands = candidates_at(h, n, target);
    &&& git_call_at(h, n, parent_config_args())
    &&& listing_lines(h[n].result) is Ok ==> forall|k: int|
        0 <= k < cands.len() ==> git_call_at(h, n + 1 + k, show_ref_args(#[trigger] cands[k]))
    &&& guard_asks_github(h, n, target, merged) ==> child_pr_call_at(h, n + 1 + cands.len(), target)
}

/// The index after the runs of the cleanup guard that starts at record `n` of `h`.
pub open spec fn guard_end(h: Seq<CallRecord>, n: int, target: Seq<char>, merged: bool) -> int {
    if listing_lines(h[n].result) is Err {
        n + 1
    } else if guard_asks_github(h, n, target, merged) {
        n + 2 + candidates_at(h, n, target).len()
    } else {
        n + 1 + candidates_at(h, n, target).len()
    }
}

/// Records added after the guard's runs change neither what the guard ran
/// nor what it decided.
pub proof fn lemma_guard_frame(h1: Seq<CallRecord>, h2: Seq<CallRecord>, n: int, target: Seq<char>, merged: bool)
    requires
        extends(h1, h2),
        0 <= n,
        guard_calls_at(h1, n, target, merged),
        guard_end(h1, n, target, merged) <= h1.len(),
    ensures
        guard_calls_at(h2, n, target, merged),
        guard_end(h2, n, target, merged) == guard_end(h1, n, target, merged),
        guard_result(h2, n, target, merged) == guard_result(h1, n, target, merged),
{
    lemma_extends(h1, h2);
    assert(h2[n] == h1[n]);
    let cands = candidates_at(h1, n, target);
    assert(candidates_at(h2, n, target) == cands);
    if listing_lines(h1[n].result) is Ok {
        lemma_live_among_frame(h1, h2, n + 1, cands);
        assert forall|k: int| 0 <= k < cands.len() implies git_call_at(h2, n + 1 + k, show_ref_args(#[trigger] cands[k])) by {
            assert(h2[n + 1 + k] == h1[n + 1 + k]);
        }
        if guard_asks_github(h1, n, target, merged) {
            assert(h2[n + 1 + cands.len()] == h1[n + 1 + cands.len()]);
        }
    }
}

/// Refuse to clean up `target` while branches are stacked on it: first the
/// local branches (published or not, in any worktree) that record it as their
/// parent; then, when its pull request merged, the open pull requests based
/// on it. A listing that fails refuses too.
pub fn guard_cleanup<E: CommandExecutor>(client: &mut GitHubClient<E>, target: &str, merged: bool) -> (r: Result<
    (),
    GwError,
>)
    ensures
        ({
            let h0 = old(client).history();
            let h = final(client).history();
            let n = h0.len() as int;
            &&& extends(h0, h)
            &&& guard_calls_at(h, n, target@, merged)
            &&& h.len() == guard_end(h, n, target@, merged)
            &&& unit_view(r) == guard_result(h, n, target@, merged)
        }),
{
    let ghost h0 = client.history();
    let ghost n = h0.len() as int;
    let local = local_children(client.executor_mut(), target);
    let ghost h1 = client.history();
    let children = match local {
        Err(e) => {
            return Err(e);
        },
        Ok(c) => c,
    };
    if let Err(e) = refuse_local_children(target, &children) {
        return Err(e);
    }
    if !merged {
        return Ok(());
    }
    let listed = open_child_prs(client, target);
    proof {
        let h = client.history();
        assert(h.drop_last() == h1);
        assert(h.take(h1.len() as int) =~= h1);
        lemma_extends(h1, h);
        crate::git::lemma_extends_trans(h0, h1, h);
        assert(h[n] == h1[n]);
        assert forall|k: int| 0 <= k < candidates_at(h1, n, target@).len() implies git_call_at(
            h,
            n + 1 + k,
            show_ref_args(#[trigger] candidates_at(h1, n, target@)[k]),
        ) by {
            assert(h[n + 1 + k] == h1[n + 1 + k]);
        }
        lemma_live_among_frame(h1, h, n + 1, candidates_at(h1, n, target@));
    }
    let prs = match listed {
        Err(e) => {
            return Err(e);
        },
        Ok(p) => p,
    };
    refuse_remote_children(target, &prs)
}

/// Handle the branch on `origin` after cleanup; when its pull request merged,
/// first make sure, right before the deletion, that no open pull request is
/// based on it (a listing that fails refuses too).
pub fn guarded_remote_cleanup<E: CommandExecutor>(
    client: &mut GitHubClient<E>,
    branch: &str,
    pr_info: &Option<PrInfo>,
) -> (r: Result<RemoteHandling, GwError>)
    ensures
        ({
            let h0 = old(client).history();
            let h = final(client).history();
            let n = h0.len() as int;
            let merged = opt_pr(*pr_info) matches Some(p) && p.state is Merged;
            &&& extends(h0, h)
            &&& if merged {
                &&& child_pr_call_at(h, n, branch@)
                &&& match remote_guard(h[n].result, branch@) {
                    Err(e) => h.len() == n + 1 && (r matches Err(x) && x@ == e),
                    Ok(()) => r matches Ok(x) && remote_handled(h, n + 1, branch@, opt_pr(*pr_info), x@),
                }
            } else {
                r matches Ok(x) && remote_handled(h, n, branch@, opt_pr(*pr_info), x@)
            }
        }),
{
    let ghost h0 = client.history();
    let ghost n = h0.len() as int;
    let merged = match pr_info {
        Some(pr) => pr.state.is_merged(),
        None => false,
    };
    if merged {
        let listed = open_child_prs(client, branch);
        let ghost h1 = client.history();
        proof {
            assert(h1.take(n) =~= h0);
        }
        let prs = match listed {
            Err(e) => {
                return Err(e);
            },
            Ok(p) => p,
        };
        if let Err(e) = refuse_remote_children(branch, &prs) {
            return Err(e);
        }
        let handled = handle_remote_branch(client, branch, pr_info);
        proof {
            let h = client.history();
            lemma_extends(h1, h);
            crate::git::lemma_extends_trans(h0, h1, h);
            assert(h[n] == h1[n]);
        }
        Ok(handled)
    } else {
        let handled = handle_remote_branch(client, branch, pr_info);
        Ok(handled)
    }
}

} // verus!
