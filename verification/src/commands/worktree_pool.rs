//! `gw worktree pool`: each leader worktree owns a pool of worktrees under
//! `.worktrees/`. Membership comes from the directories there and
//! acquisition from marker files in the leader's git directory. This module
//! holds the pool's rules; the file system is the caller's.

use vstd::prelude::*;

use crate::error::{GwError, GwErrorView};
use crate::git::{ran_git, run_view, unit_view};
use crate::github::client::CommandExecutor;
use crate::output::{action, marked_view, BOLD};
use crate::pool::detect::{
    entry_views, names, statuses, PoolEntry, PoolEntryView, PoolNextAction, PoolState,
};
use crate::pool::inventory::{count_status, max_number, next_name_view, WorktreeStatus};
use crate::text::{cat, cat3, cat5, decimal_view, join, join_path, join_path_view, join_view, lines, lines_view, str_eq, strings_view, trim, trim_view, u64_to_decimal};

verus! {

/// The directory, in the leader's git directory, that holds pool metadata.
pub const POOL_META_DIR: &'static str = "pool";

/// The directory, in the leader's worktree, that holds the pool's worktrees.
pub const POOL_WORKTREES_DIR: &'static str = ".worktrees";

/// The setup hook, relative to the main repository's root.
pub const SETUP_HOOK: &'static str = ".gw/setup";

/// The directory, in the pool metadata, that holds acquire markers.
pub const ACQUIRED_DIR: &'static str = "acquired";

/// `s` without its leading dots.
pub open spec fn strip_leading_dots(s: Seq<char>) -> Seq<char>
    decreases s.len(),
{
    if s.len() > 0 && s[0] == '.' {
        strip_leading_dots(s.drop_first())
    } else {
        s
    }
}

/// The refusal of a leader directory whose name cannot start a branch name.
pub open spec fn bad_leader_error(raw: Seq<char>) -> GwErrorView {
    GwErrorView::Other("Leader directory name is not valid for branch naming: "@ + raw)
}

/// The leader's name: its worktree directory's name without leading dots
/// (which git branch names cannot start with).
pub fn leader_name(dir_name: Option<&str>) -> (r: Result<String, GwError>)
    ensures
        match dir_name {
            None => r matches Err(e) && e@ == GwErrorView::Other("Could not determine leader name"@),
            Some(raw) => if strip_leading_dots(raw@).len() == 0 {
                r matches Err(e) && e@ == bad_leader_error(raw@)
            } else {
                r matches Ok(n) && n@ == strip_leading_dots(raw@)
            },
        },
{
    let raw = match dir_name {
        Some(raw) => raw,
        None => {
            return Err(GwError::Other("Could not determine leader name".to_string()));
        },
    };
    let n = raw.unicode_len();
    let mut i: usize = 0;
    assert(raw@.skip(0) =~= raw@);
    while i < n && raw.get_char(i) == '.'
        invariant
            n == raw@.len(),
            i <= n,
            strip_leading_dots(raw@.skip(i as int)) == strip_leading_dots(raw@),
        decreases n - i,
    {
        proof {
            assert(raw@.skip(i as int).drop_first() =~= raw@.skip(i + 1));
        }
        i = i + 1;
    }
    let rest = crate::text::slice_chars(raw, i, n);
    proof {
        assert(rest@ =~= raw@.skip(i as int));
        if i < n {
            assert(rest@[0] == raw@[i as int]);
        }
    }
    if i == n {
        return Err(GwError::Other(cat("Leader directory name is not valid for branch naming: ", raw)));
    }
    Ok(rest)
}

/// The prefix of the names of a leader's pool worktrees: `<leader>-pool-`.
pub fn pool_prefix(leader: &str) -> (r: String)
    ensures
        r@ == leader@ + "-pool-"@,
{
    cat(leader, "-pool-")
}

/// The reasons why a pool worktree is not clean enough to hand out or take
/// back: a missing directory (nothing else is checked then); another branch
/// than its pool home branch; changes or untracked files, or a status that
/// could not be read; an unfinished git operation.
pub open spec fn worktree_issues_view(
    dir_exists: bool,
    branch: Option<Seq<char>>,
    expected_branch: Seq<char>,
    status: Option<Seq<char>>,
    op: Option<Seq<char>>,
) -> Seq<Seq<char>> {
    if !dir_exists {
        seq!["worktree directory is missing"@]
    } else {
        let b = match branch {
            Some(b) => b,
            None => "???"@,
        };
        let s1: Seq<Seq<char>> = if b != expected_branch {
            seq!["on branch '"@ + b + "', expected pool home branch '"@ + expected_branch + "'"@]
        } else {
            seq![]
        };
        let s2: Seq<Seq<char>> = match status {
            Some(s) => if trim_view(s).len() > 0 {
                seq!["has uncommitted or untracked changes"@]
            } else {
                seq![]
            },
            None => seq!["could not read working tree status"@],
        };
        let s3: Seq<Seq<char>> = match op {
            Some(o) => seq!["a "@ + o + " is in progress"@],
            None => seq![],
        };
        s1 + s2 + s3
    }
}

/// When the worktree directory exists and its `git status --porcelain`
/// output could be read, the worktree is reported as having changes exactly
/// when that output is not blank (untracked files included).
pub proof fn lemma_status_changes_are_an_issue(
    branch: Option<Seq<char>>,
    expected_branch: Seq<char>,
    status: Seq<char>,
    op: Option<Seq<char>>,
)
    ensures
        worktree_issues_view(true, branch, expected_branch, Some(status), op).contains(
            "has uncommitted or untracked changes"@,
        ) == (trim_view(status).len() > 0),
{
    let msg = "has uncommitted or untracked changes"@;
    let issues = worktree_issues_view(true, branch, expected_branch, Some(status), op);
    let b = match branch {
        Some(b) => b,
        None => "???"@,
    };
    reveal_strlit("has uncommitted or untracked changes");
    reveal_strlit("on branch '");
    reveal_strlit("a ");
    let s1: Seq<Seq<char>> = if b != expected_branch {
        seq!["on branch '"@ + b + "', expected pool home branch '"@ + expected_branch + "'"@]
    } else {
        seq![]
    };
    let s2: Seq<Seq<char>> = if trim_view(status).len() > 0 {
        seq![msg]
    } else {
        seq![]
    };
    let s3: Seq<Seq<char>> = match op {
        Some(o) => seq!["a "@ + o + " is in progress"@],
        None => seq![],
    };
    assert(issues == s1 + s2 + s3);
    if trim_view(status).len() > 0 {
        assert(issues[s1.len() as int] == msg);
    } else {
        assert forall|k: int| 0 <= k < issues.len() implies issues[k] != msg by {
            if k < s1.len() {
                assert(issues[k][0] == 'o');
            } else {
                assert(issues[k][0] == 'a');
            }
            assert(msg[0] == 'h');
        }
    }
}

/// A pool worktree has no issue exactly when it is clean: its directory
/// exists, it is on its pool home branch, its status could be read and is
/// blank, and no git operation is unfinished. (`???`, which stands for a
/// branch git could not name, is no branch name git accepts.)
pub proof fn lemma_no_issue_means_clean(
    dir_exists: bool,
    branch: Option<Seq<char>>,
    expected_branch: Seq<char>,
    status: Option<Seq<char>>,
    op: Option<Seq<char>>,
)
    requires
        expected_branch != "???"@,
    ensures
        (worktree_issues_view(dir_exists, branch, expected_branch, status, op).len() == 0) == (dir_exists
            && branch == Some(expected_branch) && (status matches Some(s) && trim_view(s).len() == 0) && op is None),
{
}

/// The view of an optional text.
pub open spec fn opt_text(o: Option<&str>) -> Option<Seq<char>> {
    match o {
        Some(s) => Some(s@),
        None => None,
    }
}

/// Inspect a pool worktree from what was found of it: whether its directory
/// exists, its current branch (if git could say), its `git status
/// --porcelain` output (if readable) and any unfinished git operation. An
/// empty list means it is clean. Being behind `origin` does not count.
pub fn worktree_issues(
    dir_exists: bool,
    branch: Option<&str>,
    expected_branch: &str,
    status: Option<&str>,
    op: Option<&str>,
) -> (r: Vec<String>)
    ensures
        strings_view(r@) == worktree_issues_view(
            dir_exists,
            opt_text(branch),
            expected_branch@,
            opt_text(status),
            opt_text(op),
        ),
{
    let mut issues: Vec<String> = Vec::new();
    if !dir_exists {
        issues.push("worktree directory is missing".to_string());
        assert(strings_view(issues@) =~= seq!["worktree directory is missing"@]);
        return issues;
    }
    let b = match branch {
        Some(b) => b,
        None => "???",
    };
    let ghost s1: Seq<Seq<char>> = if b@ != expected_branch@ {
        seq!["on branch '"@ + b@ + "', expected pool home branch '"@ + expected_branch@ + "'"@]
    } else {
        seq![]
    };
    if !str_eq(b, expected_branch) {
        let msg = cat5("on branch '", b, "', expected pool home branch '", expected_branch, "'");
        issues.push(msg);
    }
    assert(strings_view(issues@) =~= s1);
    let ghost before2 = strings_view(issues@);
    match status {
        Some(s) => {
            let t = trim(s);
            if !t.as_str().is_empty() {
                issues.push("has uncommitted or untracked changes".to_string());
            }
        },
        None => {
            issues.push("could not read working tree status".to_string());
        },
    }
    let ghost s2: Seq<Seq<char>> = match status {
        Some(s) => if trim_view(s@).len() > 0 {
            seq!["has uncommitted or untracked changes"@]
        } else {
            seq![]
        },
        None => seq!["could not read working tree status"@],
    };
    assert(strings_view(issues@) =~= s1 + s2);
    if let Some(o) = op {
        let msg = cat3("a ", o, " is in progress");
        issues.push(msg);
    }
    let ghost s3: Seq<Seq<char>> = match op {
        Some(o) => seq!["a "@ + o@ + " is in progress"@],
        None => seq![],
    };
    assert(strings_view(issues@) =~= s1 + s2 + s3);
    proof {
        if branch is None {
            reveal_strlit("???");
        }
    }
    issues
}

/// The reasons joined into one text, separated by `; `.
pub fn issues_text(issues: &Vec<String>) -> (r: String)
    ensures
        r@ == join_view(strings_view(issues@), "; "@),
{
    join(issues, "; ")
}

/// The git paths whose presence shows an unfinished operation, with its name.
pub open spec fn in_progress_probes_view() -> Seq<(Seq<char>, Seq<char>)> {
    seq![
        ("rebase-merge"@, "rebase"@),
        ("rebase-apply"@, "rebase"@),
        ("MERGE_HEAD"@, "merge"@),
        ("CHERRY_PICK_HEAD"@, "cherry-pick"@),
        ("REVERT_HEAD"@, "revert"@),
        ("BISECT_LOG"@, "bisect"@),
    ]
}

/// The git paths whose presence shows an unfinished operation, in the order
/// to probe them, each with the operation's name.
pub fn in_progress_probes() -> (r: Vec<(String, String)>)
    ensures
        r@.map_values(|p: (String, String)| (p.0@, p.1@)) == in_progress_probes_view(),
{
    let mut v: Vec<(String, String)> = Vec::new();
    v.push(("rebase-merge".to_string(), "rebase".to_string()));
    v.push(("rebase-apply".to_string(), "rebase".to_string()));
    v.push(("MERGE_HEAD".to_string(), "merge".to_string()));
    v.push(("CHERRY_PICK_HEAD".to_string(), "cherry-pick".to_string()));
    v.push(("REVERT_HEAD".to_string(), "revert".to_string()));
    v.push(("BISECT_LOG".to_string(), "bisect".to_string()));
    assert(v@.map_values(|p: (String, String)| (p.0@, p.1@)) =~= in_progress_probes_view());
    v
}

/// The entry that keeps the pool's worktrees out of git's view.
pub open spec fn exclude_entry() -> Seq<char> {
    ".worktrees/"@
}

/// The new content of `.git/info/exclude` so that it lists `.worktrees/`;
/// `None` when it already does. A missing file (`None`) gets just the entry.
pub open spec fn exclude_update_view(content: Option<Seq<char>>) -> Option<Seq<char>> {
    match content {
        None => Some(exclude_entry() + "\n"@),
        Some(c) => if exists|i: int| 0 <= i < lines_view(c).len() && trim_view(#[trigger] lines_view(c)[i]) == exclude_entry() {
            None
        } else if c.len() > 0 && c.last() == '\n' {
            Some(c + exclude_entry() + "\n"@)
        } else {
            Some(c + "\n"@ + exclude_entry() + "\n"@)
        },
    }
}

/// What to write to `.git/info/exclude` (its current content, `None` when
/// it is missing) so that the pool's worktrees stay out of git's view;
/// `None` when nothing needs writing. Only this local file is touched.
pub fn exclude_update(content: Option<&str>) -> (r: Option<String>)
    ensures
        opt_string(r) == exclude_update_view(opt_text(content)),
{
    proof {
        reveal_strlit(".worktrees/");
        reveal_strlit(".worktrees/\n");
        reveal_strlit("\n");
    }
    let c = match content {
        None => {
            let r = ".worktrees/\n".to_string();
            assert(r@ =~= exclude_entry() + "\n"@);
            return Some(r);
        },
        Some(c) => c,
    };
    let ls = lines(c);
    let ghost lv = lines_view(c@);
    let mut i: usize = 0;
    while i < ls.len()
        invariant
            i <= ls.len(),
            lv == strings_view(ls@),
            lv == lines_view(c@),
            content == Some(c),
            forall|k: int| 0 <= k < i ==> trim_view(#[trigger] lv[k]) != exclude_entry(),
        decreases ls.len() - i,
    {
        let t = trim(ls[i].as_str());
        if str_eq(t.as_str(), ".worktrees/") {
            proof {
                reveal_strlit(".worktrees/");
                assert(trim_view(lines_view(c@)[i as int]) == exclude_entry());
                assert(exists|j: int|
                    0 <= j < lines_view(c@).len() && trim_view(#[trigger] lines_view(c@)[j]) == exclude_entry());
                assert(opt_text(content) == Some(c@));
            }
            return None;
        }
        i = i + 1;
    }
    let n = c.unicode_len();
    if n > 0 && c.get_char(n - 1) == '\n' {
        Some(cat3(c, ".worktrees/", "\n"))
    } else {
        let head = cat3(c, "\n", ".worktrees/");
        Some(cat(head.as_str(), "\n"))
    }
}

/// The view of an optional owned text.
pub open spec fn opt_string(o: Option<String>) -> Option<Seq<char>> {
    match o {
        Some(s) => Some(s@),
        None => None,
    }
}

/// How many worktrees warming creates: enough to have `count` available.
pub fn warm_plan(available: usize, count: usize) -> (r: usize)
    ensures
        r == if available >= count {
            0
        } else {
            count - available
        },
{
    if available >= count {
        0
    } else {
        count - available
    }
}

/// The number of the entries' highest pool name stays below `u32::MAX`, so a next name exists.
pub open spec fn can_name_next(state: PoolState, prefix: Seq<char>) -> bool {
    max_number(names(state.entries@), prefix) < u32::MAX
}

/// Whether another pool name can be given.
pub fn has_next_name(state: &PoolState, prefix: &str) -> (r: bool)
    ensures
        r == can_name_next(*state, prefix@),
{
    let ns = state.names();
    crate::pool::inventory::max_pool_number(&ns, prefix) < 0xffff_ffffu32
}

/// A worktree that warming created.
#[derive(Debug)]
pub struct NewWorktree {
    pub name: String,
    pub path: String,
}

/// Create the next pool worktree: named after the pool's next free name, in
/// `worktrees_dir`, on a new branch of that name at `default_remote`.
pub fn warm_create_one<E: CommandExecutor>(
    exec: &mut E,
    state: &PoolState,
    prefix: &str,
    worktrees_dir: &str,
    default_remote: &str,
) -> (r: (NewWorktree, Result<(), GwError>))
    requires
        can_name_next(*state, prefix@),
    ensures
        r.0.name@ == next_name_view(names(state.entries@), prefix@),
        r.0.path@ == join_path_view(worktrees_dir@, r.0.name@),
        ran_git(
            old(exec).history(),
            final(exec).history(),
            seq!["worktree"@, "add"@, "-b"@, r.0.name@, r.0.path@, default_remote@],
        ),
        unit_view(r.1) == run_view(final(exec).history().last().result),
{
    let name = state.next_name(prefix);
    let path = join_path(worktrees_dir, name.as_str());
    let res = crate::git::mutation::worktree_add(exec, path.as_str(), name.as_str(), default_remote);
    (NewWorktree { name, path }, res)
}

impl PoolState {
    /// Record a newly created worktree as available.
    pub fn add_available(&mut self, created: NewWorktree)
        ensures
            entry_views(final(self).entries@) == entry_views(old(self).entries@).push(
                PoolEntryView {
                    name: created.name@,
                    path: created.path@,
                    branch: created.name@,
                    status: WorktreeStatus::Available,
                    owner: None,
                },
            ),
    {
        let branch = created.name.clone();
        self.entries.push(
            PoolEntry {
                name: created.name,
                path: created.path,
                branch,
                status: WorktreeStatus::Available,
                owner: None,
            },
        );
        assert(entry_views(self.entries@) =~= entry_views(old(self).entries@).push(
            PoolEntryView {
                name: created.name@,
                path: created.path@,
                branch: created.name@,
                status: WorktreeStatus::Available,
                owner: None,
            },
        ));
    }

    /// The positions of the entries with `status`, in order.
    pub fn indices_with(&self, status: WorktreeStatus) -> (r: Vec<usize>)
        ensures
            forall|k: int| 0 <= k < r.len() ==> #[trigger] r@[k] < self.entries.len() && self.entries@[r@[k] as int].status
                == status,
            forall|k: int, l: int| 0 <= k < l < r.len() ==> #[trigger] r@[k] < #[trigger] r@[l],
            forall|i: int|
                0 <= i < self.entries.len() && self.entries@[i].status == status ==> r@.contains(i as usize),
            r.len() == count_status(statuses(self.entries@), status),
    {
        let mut out: Vec<usize> = Vec::new();
        let mut i: usize = 0;
        let ghost sv = statuses(self.entries@);
        while i < self.entries.len()
            invariant
                i <= self.entries.len(),
                sv == statuses(self.entries@),
                forall|k: int| 0 <= k < out.len() ==> #[trigger] out@[k] < i && self.entries@[out@[k] as int].status
                    == status,
                forall|k: int, l: int| 0 <= k < l < out.len() ==> #[trigger] out@[k] < #[trigger] out@[l],
                forall|j: int| 0 <= j < i && self.entries@[j].status == status ==> out@.contains(j as usize),
                out.len() == count_status(sv.take(i as int), status),
            decreases self.entries.len() - i,
        {
            proof {
                assert(sv.take(i + 1).drop_last() =~= sv.take(i as int));
            }
            if self.entries[i].status == status {
                let ghost before = out@;
                out.push(i);
                proof {
                    assert forall|j: int| 0 <= j < i + 1 && self.entries@[j].status == status implies out@.contains(
                        j as usize,
                    ) by {
                        if j < i {
                            assert(before.contains(j as usize));
                            let w = choose|w: int| 0 <= w < before.len() && before[w] == j as usize;
                            assert(out@[w] == j as usize);
                        } else {
                            assert(out@[before.len() as int] == i);
                        }
                    }
                }
            } else {
                proof {
                    assert forall|j: int| 0 <= j < i + 1 && self.entries@[j].status == status implies out@.contains(
                        j as usize,
                    ) by {
                        assert(j < i);
                    }
                }
            }
            i = i + 1;
        }
        assert(sv.take(self.entries.len() as int) =~= sv);
        out
    }
}

/// Undo a worktree that warming created but whose setup failed: remove the
/// worktree, then its branch. What the removals report is not looked at.
pub fn warm_rollback<E: CommandExecutor>(exec: &mut E, created: &NewWorktree)
    ensures
        ({
            let h0 = old(exec).history();
            let h = final(exec).history();
            let n = h0.len() as int;
            &&& h.len() == n + 2
            &&& h.take(n) == h0
            &&& crate::git::git_call_at(h, n, seq!["worktree"@, "remove"@, "--force"@, created.path@])
            &&& crate::git::git_call_at(h, n + 1, seq!["branch"@, "-D"@, created.name@])
        }),
{
    let ghost h0 = exec.history();
    let _ = crate::git::mutation::worktree_remove(exec, created.path.as_str());
    let ghost h1 = exec.history();
    let _ = crate::git::mutation::force_delete_branch(exec, created.name.as_str());
    proof {
        let h = exec.history();
        assert(h.drop_last() == h1);
        assert(h[h0.len() as int] == h1[h0.len() as int]);
        assert(h.take(h0.len() as int) =~= h0);
    }
}

/// Settle a worktree that warming created, once its setup ran: when the
/// setup succeeded keep it, as available; otherwise take it apart again (its
/// worktree, then its branch) and leave the pool as it was.
pub fn warm_settle<E: CommandExecutor>(exec: &mut E, state: &mut PoolState, created: NewWorktree, setup_ok: bool) -> (kept: bool)
    ensures
        kept == setup_ok,
        ({
            let h0 = old(exec).history();
            let h = final(exec).history();
            let n = h0.len() as int;
            if setup_ok {
                &&& h == h0
                &&& entry_views(final(state).entries@) == entry_views(old(state).entries@).push(
                    PoolEntryView {
                        name: created.name@,
                        path: created.path@,
                        branch: created.name@,
                        status: WorktreeStatus::Available,
                        owner: None,
                    },
                )
            } else {
                &&& final(state).entries@ == old(state).entries@
                &&& h.len() == n + 2
                &&& h.take(n) == h0
                &&& crate::git::git_call_at(h, n, seq!["worktree"@, "remove"@, "--force"@, created.path@])
                &&& crate::git::git_call_at(h, n + 1, seq!["branch"@, "-D"@, created.name@])
            }
        }),
{
    if setup_ok {
        state.add_available(created);
        true
    } else {
        warm_rollback(exec, &created);
        false
    }
}

/// Record `i` of `h` is a `git` run with `args` in the directory `dir`.
pub open spec fn git_call_in(h: Seq<crate::github::client::CallRecord>, i: int, dir: Seq<char>, args: Seq<Seq<char>>) -> bool {
    &&& 0 <= i < h.len()
    &&& h[i].program == "git"@
    &&& h[i].args == args
    &&& h[i].dir == Some(dir)
}

/// Take a pool worktree apart while draining, from the leader's checkout
/// `leader`: remove the worktree (forcibly), then delete its branch. Both
/// run whatever the first reports; what each reported is returned.
pub fn drain_entry<E: CommandExecutor>(exec: &mut E, leader: &str, entry: &PoolEntry) -> (r: (
    Result<(), GwError>,
    Result<(), GwError>,
))
    ensures
        ({
            let h0 = old(exec).history();
            let h = final(exec).history();
            let n = h0.len() as int;
            &&& h.len() == n + 2
            &&& h.take(n) == h0
            &&& git_call_in(h, n, leader@, seq!["worktree"@, "remove"@, "--force"@, entry.path@])
            &&& git_call_in(h, n + 1, leader@, seq!["branch"@, "-D"@, entry.branch@])
            &&& unit_view(r.0) == run_view(h[n].result)
            &&& unit_view(r.1) == run_view(h[n + 1].result)
        }),
{
    let ghost h0 = exec.history();
    let path = entry.path.as_str();
    let branch = entry.branch.as_str();
    let removed = crate::git::mutation::git_run_in_dir(exec, leader, &["worktree", "remove", "--force", path]);
    let ghost h1 = exec.history();
    proof {
        assert(crate::github::client::args_view(seq!["worktree", "remove", "--force", path]) =~= seq![
            "worktree"@,
            "remove"@,
            "--force"@,
            entry.path@,
        ]);
    }
    let deleted = crate::git::mutation::git_run_in_dir(exec, leader, &["branch", "-D", branch]);
    proof {
        let h = exec.history();
        assert(crate::github::client::args_view(seq!["branch", "-D", branch]) =~= seq![
            "branch"@,
            "-D"@,
            entry.branch@,
        ]);
        assert(h.drop_last() == h1);
        assert(h[h0.len() as int] == h1[h0.len() as int]);
        assert(h.take(h0.len() as int) =~= h0);
    }
    (removed, deleted)
}

/// The acquired worktrees (`targets`, with what is wrong with each in
/// `issues`) that release without a name gives back: those with nothing wrong.
pub open spec fn released_targets(targets: Seq<usize>, issues: Seq<Vec<String>>) -> Seq<usize>
    decreases targets.len(),
{
    if targets.len() == 0 || issues.len() < targets.len() {
        seq![]
    } else {
        let rest = released_targets(targets.drop_last(), issues.take(targets.len() - 1));
        if issues[targets.len() - 1].len() == 0 {
            rest.push(targets.last())
        } else {
            rest
        }
    }
}

/// The names of those kept acquired because something is wrong with them.
pub open spec fn kept_names(entries: Seq<crate::pool::detect::PoolEntry>, targets: Seq<usize>, issues: Seq<Vec<String>>) -> Seq<Seq<char>>
    decreases targets.len(),
{
    if targets.len() == 0 || issues.len() < targets.len() {
        seq![]
    } else {
        let rest = kept_names(entries, targets.drop_last(), issues.take(targets.len() - 1));
        if issues[targets.len() - 1].len() == 0 {
            rest
        } else {
            rest.push(entries[targets.last() as int].name@)
        }
    }
}

/// Split the acquired worktrees that release without a name handles into
/// those given back (nothing wrong) and the names of those kept, in order.
pub fn release_all_plan(state: &PoolState, targets: &Vec<usize>, issues: &Vec<Vec<String>>) -> (r: (
    Vec<usize>,
    Vec<String>,
))
    requires
        targets.len() == issues.len(),
        forall|k: int| 0 <= k < targets.len() ==> #[trigger] targets@[k] < state.entries.len(),
    ensures
        r.0@ == released_targets(targets@, issues@),
        strings_view(r.1@) == kept_names(state.entries@, targets@, issues@),
{
    let mut released: Vec<usize> = Vec::new();
    let mut kept: Vec<String> = Vec::new();
    let mut i: usize = 0;
    while i < targets.len()
        invariant
            i <= targets.len(),
            targets.len() == issues.len(),
            forall|k: int| 0 <= k < targets.len() ==> #[trigger] targets@[k] < state.entries.len(),
            released@ == released_targets(targets@.take(i as int), issues@.take(i as int)),
            strings_view(kept@) == kept_names(state.entries@, targets@.take(i as int), issues@.take(i as int)),
        decreases targets.len() - i,
    {
        proof {
            let t = targets@.take(i + 1);
            let is = issues@.take(i + 1);
            assert(t.drop_last() =~= targets@.take(i as int));
            assert(is.take(i as int) =~= issues@.take(i as int));
            assert(t.last() == targets@[i as int]);
            assert(is[i as int] == issues@[i as int]);
        }
        let t = targets[i];
        if issues[i].len() == 0 {
            released.push(t);
        } else {
            let ghost before = strings_view(kept@);
            kept.push(state.entries[t].name.clone());
            assert(strings_view(kept@) =~= before.push(state.entries@[t as int].name@));
        }
        i = i + 1;
    }
    assert(targets@.take(targets.len() as int) =~= targets@);
    assert(issues@.take(issues.len() as int) =~= issues@);
    (released, kept)
}

/// A prefix holds no more entries of a status than the whole.
proof fn lemma_count_prefix_le(s: Seq<WorktreeStatus>, j: int, st: WorktreeStatus)
    requires
        0 <= j <= s.len(),
    ensures
        count_status(s.take(j), st) <= count_status(s, st),
    decreases s.len() - j,
{
    if j < s.len() {
        lemma_count_prefix_le(s, j + 1, st);
        assert(s.take(j + 1).drop_last() =~= s.take(j));
    } else {
        assert(s.take(j) =~= s);
    }
}

/// How many of the first `i` entries are available.
pub open spec fn available_before(entries: Seq<crate::pool::detect::PoolEntry>, i: int) -> nat {
    count_status(statuses(entries.take(i)), WorktreeStatus::Available)
}

/// The worktree that `gw worktree pool acquire` hands out, given what was
/// wrong with each available one (`issues[k]` for the `k`-th available
/// entry): the first available one with nothing wrong. Without an available
/// worktree the pool is exhausted; when every available one has something
/// wrong, none is clean.
pub fn choose_clean(state: &PoolState, issues: &Vec<Vec<String>>) -> (r: Result<usize, GwError>)
    requires
        issues.len() == count_status(statuses(state.entries@), WorktreeStatus::Available),
    ensures
        match r {
            Ok(i) => {
                &&& i < state.entries.len()
                &&& state.entries@[i as int].status == WorktreeStatus::Available
                &&& issues@[available_before(state.entries@, i as int) as int].len() == 0
                &&& forall|k: int| 0 <= k < available_before(state.entries@, i as int) ==> #[trigger] issues@[k].len() > 0
            },
            Err(e) => {
                &&& forall|k: int| 0 <= k < issues.len() ==> #[trigger] issues@[k].len() > 0
                &&& if issues.len() == 0 {
                    e@ == GwErrorView::PoolExhausted
                } else {
                    e@ == GwErrorView::PoolNoCleanWorktree
                }
            },
        },
{
    let ghost es = state.entries@;
    let mut k: usize = 0;
    let mut i: usize = 0;
    while i < state.entries.len()
        invariant
            i <= state.entries.len(),
            es == state.entries@,
            k == available_before(es, i as int),
            issues.len() == count_status(statuses(es), WorktreeStatus::Available),
            forall|j: int| 0 <= j < k ==> #[trigger] issues@[j].len() > 0,
        decreases state.entries.len() - i,
    {
        proof {
            assert(statuses(es.take(i + 1)) =~= statuses(es.take(i as int)).push(es[i as int].status));
            assert(statuses(es.take(i + 1)) =~= statuses(es).take(i + 1));
            assert(statuses(es.take(i + 1)).drop_last() =~= statuses(es.take(i as int)));
            lemma_count_prefix_le(statuses(es), i as int + 1, WorktreeStatus::Available);
        }
        if state.entries[i].status == WorktreeStatus::Available {
            if issues[k].len() == 0 {
                return Ok(i);
            }
            k = k + 1;
        }
        i = i + 1;
    }
    assert(es.take(es.len() as int) =~= es);
    if k == 0 {
        Err(GwError::PoolExhausted)
    } else {
        Err(GwError::PoolNoCleanWorktree)
    }
}

/// How many worktrees stay available after one is acquired.
pub fn acquire_remaining(state: &PoolState) -> (r: usize)
    requires
        count_status(statuses(state.entries@), WorktreeStatus::Available) >= 1,
    ensures
        r == count_status(statuses(state.entries@), WorktreeStatus::Available) - 1,
{
    state.count_by_status(&WorktreeStatus::Available) - 1
}

/// The worktree that `gw worktree pool release <name>` releases: named or
/// located at `name`, and acquired.
pub fn release_target(state: &PoolState, name: &str) -> (r: Result<usize, GwError>)
    ensures
        match r {
            Ok(i) => i < state.entries.len() && (state.entries@[i as int].name@ == name@ || state.entries@[i as int].path@
                == name@) && state.entries@[i as int].status == WorktreeStatus::Acquired && forall|j: int|
                0 <= j < i ==> state.entries@[j].name@ != name@ && state.entries@[j].path@ != name@,
            Err(e) => (forall|j: int|
                0 <= j < state.entries.len() ==> state.entries@[j].name@ != name@ && state.entries@[j].path@ != name@)
                && e@ == GwErrorView::PoolWorktreeNotFound(name@) || exists|i: int|
                0 <= i < state.entries.len() && (state.entries@[i].name@ == name@ || state.entries@[i].path@ == name@)
                    && (forall|j: int|
                    0 <= j < i ==> state.entries@[j].name@ != name@ && state.entries@[j].path@ != name@)
                    && state.entries@[i].status != WorktreeStatus::Acquired && e@
                    == GwErrorView::PoolWorktreeNotAcquired(state.entries@[i].name@),
        },
{
    let mut i: usize = 0;
    while i < state.entries.len()
        invariant
            i <= state.entries.len(),
            forall|j: int| 0 <= j < i ==> state.entries@[j].name@ != name@ && state.entries@[j].path@ != name@,
        decreases state.entries.len() - i,
    {
        if str_eq(state.entries[i].name.as_str(), name) || str_eq(state.entries[i].path.as_str(), name) {
            if state.entries[i].status != WorktreeStatus::Acquired {
                return Err(GwError::PoolWorktreeNotAcquired(state.entries[i].name.clone()));
            }
            return Ok(i);
        }
        i = i + 1;
    }
    Err(GwError::PoolWorktreeNotFound(name.to_string()))
}

/// The refusal to release a worktree that is not clean.
pub fn dirty_error(name: &str, issues: &Vec<String>) -> (r: GwError)
    ensures
        r@ == (GwErrorView::PoolWorktreeDirty { name: name@, reason: join_view(strings_view(issues@), "; "@) }),
{
    GwError::PoolWorktreeDirty { name: name.to_string(), reason: join(issues, "; ") }
}

/// The worktrees that `gw worktree pool release` (without a name) releases:
/// every acquired one; there must be some.
pub fn release_all_targets(state: &PoolState) -> (r: Result<Vec<usize>, GwError>)
    ensures
        match r {
            Ok(v) => v.len() > 0 && v.len() == count_status(statuses(state.entries@), WorktreeStatus::Acquired)
                && (forall|k: int| 0 <= k < v.len() ==> #[trigger] v@[k] < state.entries.len()
                && state.entries@[v@[k] as int].status == WorktreeStatus::Acquired) && (forall|k: int, l: int|
                0 <= k < l < v.len() ==> #[trigger] v@[k] < #[trigger] v@[l]),
            Err(e) => e@ == GwErrorView::PoolNoneAcquired && count_status(
                statuses(state.entries@),
                WorktreeStatus::Acquired,
            ) == 0,
        },
{
    let v = state.indices_with(WorktreeStatus::Acquired);
    if v.len() == 0 {
        return Err(GwError::PoolNoneAcquired);
    }
    Ok(v)
}

/// The refusal that reports the worktrees kept acquired because they were not clean.
pub open spec fn kept_error_view(skipped: Seq<Seq<char>>) -> GwErrorView {
    GwErrorView::Other(
        "Kept "@ + decimal_view(skipped.len()) + " unclean worktree(s) acquired: "@ + join_view(skipped, ", "@)
            + ". Run `gw cleanup` inside each (or fix it), then `gw worktree pool release <name>`."@,
    )
}

/// After releasing every clean worktree: an error naming the unclean ones
/// that were kept acquired, if any.
pub fn kept_error(skipped: &Vec<String>) -> (r: Option<GwError>)
    ensures
        skipped.len() == 0 ==> r is None,
        skipped.len() > 0 ==> (r matches Some(e) && e@ == kept_error_view(strings_view(skipped@))),
{
    if skipped.len() == 0 {
        return None;
    }
    let n = u64_to_decimal(skipped.len() as u64);
    let names = join(skipped, ", ");
    let head = cat3("Kept ", n.as_str(), " unclean worktree(s) acquired: ");
    Some(
        GwError::Other(
            cat3(
                head.as_str(),
                names.as_str(),
                ". Run `gw cleanup` inside each (or fix it), then `gw worktree pool release <name>`.",
            ),
        ),
    )
}

/// Whether the pool may be drained: it must exist, and acquired worktrees
/// are removed only with `force`. Gives the number of worktrees.
pub fn drain_check(state: &PoolState, force: bool) -> (r: Result<usize, GwError>)
    ensures
        ({
            let acquired = count_status(statuses(state.entries@), WorktreeStatus::Acquired);
            if state.entries.len() == 0 {
                r matches Err(e) && e@ == GwErrorView::PoolNotInitialized
            } else if acquired > 0 && !force {
                r matches Err(e) && e@ == GwErrorView::PoolHasAcquiredWorktrees(acquired)
            } else {
                r == Ok::<usize, GwError>(state.entries.len())
            }
        }),
{
    if state.entries.len() == 0 {
        return Err(GwError::PoolNotInitialized);
    }
    let acquired = state.count_by_status(&WorktreeStatus::Acquired);
    if acquired > 0 && !force {
        return Err(GwError::PoolHasAcquiredWorktrees(acquired));
    }
    Ok(state.entries.len())
}

/// The pool's counts: `Pool: <a> available, <b> acquired, <c> total`.
pub fn pool_counts_line(available: usize, acquired: usize, total: usize) -> (r: String)
    ensures
        r@ == "Pool: "@ + decimal_view(available as nat) + " available, "@ + decimal_view(acquired as nat)
            + " acquired, "@ + decimal_view(total as nat) + " total"@,
{
    let a = u64_to_decimal(available as u64);
    let b = u64_to_decimal(acquired as u64);
    let c = u64_to_decimal(total as u64);
    let head = cat5("Pool: ", a.as_str(), " available, ", b.as_str(), " acquired, ");
    cat3(head.as_str(), c.as_str(), " total")
}

/// The lines that present the pool's recommended step.
pub open spec fn next_action_lines(a: PoolNextAction) -> Seq<Seq<char>> {
    match a {
        PoolNextAction::WarmPool => seq![
            marked_view(BOLD@, "→"@, "Next: warm the pool"@),
            "  gw worktree pool warm <count>"@,
        ],
        PoolNextAction::Ready { available } => seq![
            marked_view(BOLD@, "→"@, "Ready: "@ + decimal_view(available as nat) + " worktree(s) available"@),
            "  gw worktree pool acquire"@,
            "  gw worktree pool release [name]"@,
        ],
        PoolNextAction::Exhausted { acquired } => seq![
            marked_view(
                BOLD@,
                "→"@,
                "All "@ + decimal_view(acquired as nat) + " worktree(s) acquired. Release or warm more."@,
            ),
            "  gw worktree pool release [name]"@,
            "  gw worktree pool warm <count>"@,
        ],
        PoolNextAction::AllIdle { available } => seq![
            marked_view(BOLD@, "→"@, "All "@ + decimal_view(available as nat) + " worktree(s) idle. Acquire or drain."@),
            "  gw worktree pool acquire"@,
            "  gw worktree pool drain"@,
        ],
    }
}

/// The lines that present the pool's recommended step.
pub fn display_pool_next_action(a: &PoolNextAction) -> (r: Vec<String>)
    ensures
        strings_view(r@) == next_action_lines(*a),
{
    let mut v: Vec<String> = Vec::new();
    match a {
        PoolNextAction::WarmPool => {
            v.push(action("Next: warm the pool"));
            v.push("  gw worktree pool warm <count>".to_string());
        },
        PoolNextAction::Ready { available } => {
            let n = u64_to_decimal(*available as u64);
            v.push(action(cat3("Ready: ", n.as_str(), " worktree(s) available").as_str()));
            v.push("  gw worktree pool acquire".to_string());
            v.push("  gw worktree pool release [name]".to_string());
        },
        PoolNextAction::Exhausted { acquired } => {
            let n = u64_to_decimal(*acquired as u64);
            v.push(action(cat3("All ", n.as_str(), " worktree(s) acquired. Release or warm more.").as_str()));
            v.push("  gw worktree pool release [name]".to_string());
            v.push("  gw worktree pool warm <count>".to_string());
        },
        PoolNextAction::AllIdle { available } => {
            let n = u64_to_decimal(*available as u64);
            v.push(action(cat3("All ", n.as_str(), " worktree(s) idle. Acquire or drain.").as_str()));
            v.push("  gw worktree pool acquire".to_string());
            v.push("  gw worktree pool drain".to_string());
        },
    }
    assert(strings_view(v@) =~= next_action_lines(*a));
    v
}

/// `s` padded with spaces on the right to at least `width` characters.
pub open spec fn pad_right_view(s: Seq<char>, width: nat) -> Seq<char> {
    if s.len() >= width {
        s
    } else {
        s + Seq::new((width - s.len()) as nat, |i: int| ' ')
    }
}

/// `s` padded with spaces on the right to at least `width` characters (as
/// `{:<width}` formats it).
pub fn pad_right(s: &str, width: usize) -> (r: String)
    ensures
        r@ == pad_right_view(s@, width as nat),
{
    proof {
        reveal_strlit(" ");
    }
    let n = s.unicode_len();
    let mut out = s.to_string();
    if n >= width {
        return out;
    }
    let mut k: usize = n;
    while k < width
        invariant
            n <= k <= width,
            n == s@.len(),
            out@ == s@ + Seq::new((k - n) as nat, |i: int| ' '),
        decreases width - k,
    {
        out = cat(out.as_str(), " ");
        proof {
            reveal_strlit(" ");
            assert(out@ =~= s@ + Seq::new((k + 1 - n) as nat, |i: int| ' '));
        }
        k = k + 1;
    }
    out
}

/// A row of the acquired-worktrees table: the name padded to 24 columns,
/// then the branch, or `(idle)` when the worktree is on its home branch.
pub fn acquired_row(name: &str, branch: &str) -> (r: String)
    ensures
        r@ == pad_right_view(name@, 24) + " "@ + if branch@ == name@ {
            "(idle)"@
        } else {
            branch@
        },
{
    let padded = pad_right(name, 24);
    let shown = if str_eq(branch, name) {
        "(idle)"
    } else {
        branch
    };
    cat3(padded.as_str(), " ", shown)
}

} // verus!
