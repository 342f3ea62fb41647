//! The GitHub client: runs `gh` (and `git`) through a command executor and
//! reads what they print.

use vstd::prelude::*;

use crate::error::{GwError, GwErrorView};
use crate::github::parser::{parse_pr_json, pr_json_error, pr_json_result};
use crate::github::json::{json_parse, lookup, JsonValueView};
use crate::github::types::{MergeMethod, PrInfo, PrInfoView, PrState, PrStateView, RawPrData, RawPrDataView};
use crate::text::{
    cat, lines, lines_view, seq_contains, starts_with, seq_starts_with, str_contains, str_eq,
    trim, trim_view, u64_to_decimal, decimal_view,
};

verus! {

/// What a finished command reported.
#[derive(Debug, Clone)]
pub struct CommandOutput {
    pub success: bool,
    /// The exit code, when the process exited normally.
    pub code: Option<i32>,
    pub stdout: String,
    pub stderr: String,
}

/// A command's report with texts as character sequences.
pub struct CommandOutputView {
    pub success: bool,
    pub code: Option<i32>,
    pub stdout: Seq<char>,
    pub stderr: Seq<char>,
}

impl View for CommandOutput {
    type V = CommandOutputView;

    open spec fn view(&self) -> CommandOutputView {
        CommandOutputView { success: self.success, code: self.code, stdout: self.stdout@, stderr: self.stderr@ }
    }
}

/// A successful run (exit code 0) that printed `stdout`.
pub open spec fn success_view(stdout: Seq<char>) -> CommandOutputView {
    CommandOutputView { success: true, code: Some(0), stdout, stderr: Seq::empty() }
}

/// A failed run (exit code 1) that printed `stderr`.
pub open spec fn failure_view(stderr: Seq<char>) -> CommandOutputView {
    CommandOutputView { success: false, code: Some(1), stdout: Seq::empty(), stderr }
}

impl CommandOutput {
    /// A successful run (exit code 0) that printed `stdout`.
    pub fn success(stdout: &str) -> (r: Self)
        ensures
            r@ == success_view(stdout@),
    {
        CommandOutput { success: true, code: Some(0), stdout: stdout.to_string(), stderr: String::new() }
    }

    /// A failed run (exit code 1) that printed `stderr`.
    pub fn failure(stderr: &str) -> (r: Self)
        ensures
            r@ == failure_view(stderr@),
    {
        CommandOutput { success: false, code: Some(1), stdout: String::new(), stderr: stderr.to_string() }
    }
}

/// The result of running a command, as views.
pub open spec fn run_result_view(r: Result<CommandOutput, GwError>) -> Result<CommandOutputView, GwErrorView> {
    match r {
        Ok(o) => Ok(o@),
        Err(e) => Err(e@),
    }
}

/// The views of a list of arguments.
pub open spec fn args_view(args: Seq<&str>) -> Seq<Seq<char>> {
    args.map_values(|a: &str| a@)
}

/// One command that an executor ran, with what came of it.
pub struct CallRecord {
    pub program: Seq<char>,
    pub args: Seq<Seq<char>>,
    pub dir: Option<Seq<char>>,
    pub result: Result<CommandOutputView, GwErrorView>,
}

/// Runs external commands for the client.
pub trait CommandExecutor {
    /// The commands run so far, oldest first, each with what came of it.
    spec fn history(&self) -> Seq<CallRecord>;

    /// What the executor is known, before the run, to answer to `program`
    /// with `args` (in any directory): a scripted executor knows its answers,
    /// one that starts processes does not (`None`).
    spec fn known_answer(&self, program: Seq<char>, args: Seq<Seq<char>>) -> Option<CommandOutputView>;

    /// Run `program` with `args` and report its output.
    fn execute(&mut self, program: &str, args: &[&str]) -> (r: Result<CommandOutput, GwError>)
        ensures
            final(self).history() == old(self).history().push(
                CallRecord { program: program@, args: args_view(args@), dir: None, result: run_result_view(r) },
            ),
            old(self).known_answer(program@, args_view(args@)) matches Some(o) ==> (r matches Ok(x) && x@ == o),
            forall|p: Seq<char>, a: Seq<Seq<char>>| #[trigger] final(self).known_answer(p, a) == old(self).known_answer(p, a),
    ;

    /// Run `program` with `args` in the directory `dir` and report its output.
    fn execute_in_dir(&mut self, program: &str, args: &[&str], dir: &str) -> (r: Result<
        CommandOutput,
        GwError,
    >)
        ensures
            final(self).history() == old(self).history().push(
                CallRecord {
                    program: program@,
                    args: args_view(args@),
                    dir: Some(dir@),
                    result: run_result_view(r),
                },
            ),
            old(self).known_answer(program@, args_view(args@)) matches Some(o) ==> (r matches Ok(x) && x@ == o),
            forall|p: Seq<char>, a: Seq<Seq<char>>| #[trigger] final(self).known_answer(p, a) == old(self).known_answer(p, a),
    ;
}

/// `e1` knows the same answers as `e0`, and every run that `e1`'s history
/// adds to `e0`'s got the answer `e0` was known to give it.
pub open spec fn answers_kept<E: CommandExecutor>(e0: E, e1: E) -> bool {
    &&& forall|p: Seq<char>, a: Seq<Seq<char>>| #[trigger] e1.known_answer(p, a) == e0.known_answer(p, a)
    &&& forall|i: int|
        e0.history().len() <= i < e1.history().len() ==> (e0.known_answer(
            #[trigger] e1.history()[i].program,
            e1.history()[i].args,
        ) matches Some(o) ==> e1.history()[i].result == Ok::<CommandOutputView, GwErrorView>(o))
}

/// Something that runs external commands, with nothing claimed of what it
/// reports: `RecordingExecutor` keeps the record of its runs.
pub trait CommandRunner {
    /// Run `program` with `args`.
    fn run(&mut self, program: &str, args: &[&str]) -> Result<CommandOutput, GwError>;

    /// Run `program` with `args` in the directory `dir`.
    fn run_in_dir(&mut self, program: &str, args: &[&str], dir: &str) -> Result<CommandOutput, GwError>;
}

/// An executor over a runner: it hands each command to the runner and
/// records the command with whatever the runner reported.
pub struct RecordingExecutor<R: CommandRunner> {
    runner: R,
    records: Ghost<Seq<CallRecord>>,
}

impl<R: CommandRunner> RecordingExecutor<R> {
    /// An executor over `runner` that has run nothing yet.
    pub fn new(runner: R) -> (r: Self)
        ensures
            r.history() == Seq::<CallRecord>::empty(),
    {
        RecordingExecutor { runner, records: Ghost(Seq::empty()) }
    }
}

impl<R: CommandRunner> CommandExecutor for RecordingExecutor<R> {
    closed spec fn history(&self) -> Seq<CallRecord> {
        self.records@
    }

    open spec fn known_answer(&self, program: Seq<char>, args: Seq<Seq<char>>) -> Option<CommandOutputView> {
        None
    }

    fn execute(&mut self, program: &str, args: &[&str]) -> (r: Result<CommandOutput, GwError>) {
        let r = self.runner.run(program, args);
        self.records = Ghost(
            self.records@.push(
                CallRecord { program: program@, args: args_view(args@), dir: None, result: run_result_view(r) },
            ),
        );
        r
    }

    fn execute_in_dir(&mut self, program: &str, args: &[&str], dir: &str) -> (r: Result<CommandOutput, GwError>) {
        let r = self.runner.run_in_dir(program, args, dir);
        self.records = Ghost(
            self.records@.push(
                CallRecord {
                    program: program@,
                    args: args_view(args@),
                    dir: Some(dir@),
                    result: run_result_view(r),
                },
            ),
        );
        r
    }
}

/// Whether a command ran and reported success.
pub open spec fn ran_ok(r: Result<CommandOutputView, GwErrorView>) -> bool {
    r is Ok && r->Ok_0.success
}

/// The fields that `gh pr view` is asked for.
pub open spec fn pr_view_fields() -> Seq<char> {
    "number,title,url,state,baseRefName,headRefName,mergeCommit,mergedAt"@
}

/// The arguments of `gh pr view` for a branch (or a pull request number).
pub open spec fn pr_view_args(branch: Seq<char>) -> Seq<Seq<char>> {
    seq!["pr"@, "view"@, branch, "--json"@, pr_view_fields()]
}

/// What a failed `gh pr view` means: no pull request, missing authentication, or a failure.
pub open spec fn pr_view_error_view(stderr: Seq<char>) -> Result<Option<PrInfoView>, GwErrorView> {
    if seq_contains(stderr, "no pull requests found"@) || seq_contains(stderr, "Could not resolve"@) {
        Ok(None)
    } else if seq_contains(stderr, "auth login"@) {
        Err(GwErrorView::Other("GitHub CLI not authenticated. Run: gh auth login"@))
    } else {
        Err(GwErrorView::GitCommandFailed("gh pr view failed: "@ + trim_view(stderr)))
    }
}

/// How many lines begin with `prefix`.
pub open spec fn count_prefixed(ls: Seq<Seq<char>>, prefix: Seq<char>) -> nat
    decreases ls.len(),
{
    if ls.len() == 0 {
        0
    } else {
        count_prefixed(ls.drop_last(), prefix) + if seq_starts_with(ls.last(), prefix) {
            1nat
        } else {
            0nat
        }
    }
}

/// Counting lines that begin with a prefix adds up over consecutive parts.
pub proof fn lemma_count_prefixed_concat(a: Seq<Seq<char>>, b: Seq<Seq<char>>, prefix: Seq<char>)
    ensures
        count_prefixed(a + b, prefix) == count_prefixed(a, prefix) + count_prefixed(b, prefix),
    decreases b.len(),
{
    if b.len() == 0 {
        assert(a + b =~= a);
    } else {
        lemma_count_prefixed_concat(a, b.drop_last(), prefix);
        assert((a + b).drop_last() =~= a + b.drop_last());
    }
}

/// The merge method that `git cat-file -p <commit>` shows: two parents mean a
/// merge commit; anything else, or a failed lookup, means a squash.
pub open spec fn merge_method_from_commit(r: Result<CommandOutputView, GwErrorView>) -> MergeMethod {
    if ran_ok(r) && count_prefixed(lines_view(r->Ok_0.stdout), "parent "@) == 2 {
        MergeMethod::Merge
    } else {
        MergeMethod::Squash
    }
}

/// The pull request state that GitHub's state word and the merge method give;
/// an unknown word counts as closed.
pub open spec fn pr_state_from(state: Seq<char>, method: MergeMethod, merge_commit: Option<Seq<char>>) -> PrStateView {
    if state == "OPEN"@ {
        PrStateView::Open
    } else if state == "MERGED"@ {
        PrStateView::Merged { method, merge_commit }
    } else {
        PrStateView::Closed
    }
}

/// The pull request made from raw fields and a merge method.
pub open spec fn pr_info_from_raw_view(raw: RawPrDataView, method: MergeMethod) -> PrInfoView {
    PrInfoView {
        number: raw.number,
        title: raw.title,
        url: raw.url,
        state: pr_state_from(raw.state, method, raw.merge_commit),
        base_branch: raw.base_branch,
        head_branch: raw.head_branch,
    }
}

/// The view of an optional pull request result.
pub open spec fn pr_result_view(r: Result<Option<PrInfo>, GwError>) -> Result<Option<PrInfoView>, GwErrorView> {
    match r {
        Ok(Some(p)) => Ok(Some(p@)),
        Ok(None) => Ok(None),
        Err(e) => Err(e@),
    }
}

/// The view of a result without a value.
pub open spec fn unit_result_view(r: Result<(), GwError>) -> Result<(), GwErrorView> {
    match r {
        Ok(()) => Ok(()),
        Err(e) => Err(e@),
    }
}

/// What a `git push origin --delete` run means: success, or a branch that was
/// already gone, is fine; anything else is a failure.
pub open spec fn remote_delete_view(r: Result<CommandOutputView, GwErrorView>) -> Result<(), GwErrorView> {
    match r {
        Err(e) => Err(e),
        Ok(o) => if o.success || seq_contains(o.stderr, "remote ref does not exist"@) {
            Ok(())
        } else {
            Err(GwErrorView::GitCommandFailed("Failed to delete remote branch: "@ + trim_view(o.stderr)))
        },
    }
}

/// What a `gh pr` edit command's run means; a failure is reported after `prefix`.
pub open spec fn gh_edit_view(r: Result<CommandOutputView, GwErrorView>, prefix: Seq<char>) -> Result<(), GwErrorView> {
    match r {
        Err(e) => Err(e),
        Ok(o) => if o.success {
            Ok(())
        } else {
            Err(GwErrorView::GitCommandFailed(prefix + trim_view(o.stderr)))
        },
    }
}

/// What `get_pr_for_branch` returns after its `gh pr view` run gave `view`,
/// and, for a merged pull request with a merge commit, its `git cat-file`
/// run gave `cat_file`.
pub open spec fn pr_lookup_view(
    view: Result<CommandOutputView, GwErrorView>,
    cat_file: Result<CommandOutputView, GwErrorView>,
) -> Result<Option<PrInfoView>, GwErrorView> {
    match view {
        Err(e) => Err(e),
        Ok(o) => if !o.success {
            pr_view_error_view(o.stderr)
        } else {
            match pr_json_result(o.stdout) {
                Err(reason) => Err(pr_json_error(reason, o.stdout)),
                Ok(raw) => {
                    let method = if raw.merge_commit is Some {
                        merge_method_from_commit(cat_file)
                    } else {
                        MergeMethod::Rebase
                    };
                    Ok(Some(pr_info_from_raw_view(raw, method)))
                },
            }
        },
    }
}

/// Whether `get_pr_for_branch` runs `git cat-file` after its `gh pr view` run gave `view`.
pub open spec fn pr_lookup_inspects_commit(view: Result<CommandOutputView, GwErrorView>) -> bool {
    ran_ok(view) && pr_json_result(view->Ok_0.stdout) is Ok && pr_json_result(
        view->Ok_0.stdout,
    )->Ok_0.state == "MERGED"@ && pr_json_result(view->Ok_0.stdout)->Ok_0.merge_commit is Some
}

/// The record of a `git cat-file -p <sha>` run.
pub open spec fn cat_file_args(sha: Seq<char>) -> Seq<Seq<char>> {
    seq!["cat-file"@, "-p"@, sha]
}

/// The number of runs a pull request lookup makes when its first run is record `i` of `h`.
pub open spec fn lookup_runs(h: Seq<CallRecord>, i: int) -> int {
    if pr_lookup_inspects_commit(h[i].result) {
        2
    } else {
        1
    }
}

/// The runs from record `i` of `h` on are those of a pull request lookup for `branch`.
pub open spec fn lookup_calls_at(h: Seq<CallRecord>, i: int, branch: Seq<char>) -> bool {
    let view = h[i].result;
    &&& 0 <= i
    &&& i + lookup_runs(h, i) <= h.len()
    &&& h[i].program == "gh"@
    &&& h[i].args == pr_view_args(branch)
    &&& h[i].dir is None
    &&& pr_lookup_inspects_commit(view) ==> {
        &&& h[i + 1].program == "git"@
        &&& h[i + 1].args == cat_file_args(pr_json_result(view->Ok_0.stdout)->Ok_0.merge_commit->0)
        &&& h[i + 1].dir is None
    }
}

/// What a pull request lookup whose first run is record `i` of `h` returns.
pub open spec fn lookup_at(h: Seq<CallRecord>, i: int) -> Result<Option<PrInfoView>, GwErrorView> {
    pr_lookup_view(h[i].result, h[i + lookup_runs(h, i) - 1].result)
}

/// The pull request made from parsed fields keeps every parsed text and the
/// number unchanged; only the state word becomes a state.
pub proof fn lemma_pr_keeps_parsed_fields(raw: RawPrDataView, method: MergeMethod)
    ensures
        ({
            let p = pr_info_from_raw_view(raw, method);
            &&& p.number == raw.number
            &&& p.title == raw.title
            &&& p.url == raw.url
            &&& p.base_branch == raw.base_branch
            &&& p.head_branch == raw.head_branch
        }),
{
}

/// A `gh pr view` run that succeeded with a readable object gives a pull
/// request whose number, title, URL and branches are the object's members:
/// a string member gives its text, an absent title, URL or head branch is
/// empty, and an absent base branch is `main`.
pub proof fn lemma_pr_reads_json_members(
    view: Result<CommandOutputView, GwErrorView>,
    cat_file: Result<CommandOutputView, GwErrorView>,
)
    requires
        view matches Ok(o) && o.success,
        pr_json_result(view->Ok_0.stdout) is Ok,
    ensures
        ({
            let text = view->Ok_0.stdout;
            let members = json_parse(text)->0->Object_0;
            let member = |key: Seq<char>, default: Seq<char>, v: Seq<char>|
                match lookup(members, key) {
                    None => v == default,
                    Some(t) => json_parse(t) matches Some(JsonValueView::Str(x)) && v == x,
                };
            &&& json_parse(text) matches Some(JsonValueView::Object(_))
            &&& pr_lookup_view(view, cat_file) matches Ok(Some(p)) && {
                &&& lookup(members, "number"@) matches Some(t) && json_parse(t) == Some(
                    JsonValueView::Number(Some(p.number)),
                )
                &&& member("title"@, Seq::empty(), p.title)
                &&& member("url"@, Seq::empty(), p.url)
                &&& member("baseRefName"@, "main"@, p.base_branch)
                &&& member("headRefName"@, Seq::empty(), p.head_branch)
            }
        }),
{
}

/// A merged pull request's merge method comes from its merge commit: the
/// lookup runs `git cat-file` exactly when there is a merge commit, two
/// parents there mean a merge and any other count, or a failed `git
/// cat-file`, a squash; without a merge commit the method is a rebase.
pub proof fn lemma_merged_pr_method(h: Seq<CallRecord>, i: int)
    requires
        0 <= i,
        i + lookup_runs(h, i) <= h.len(),
        ran_ok(h[i].result),
        pr_json_result(h[i].result->Ok_0.stdout) matches Ok(raw) && raw.state == "MERGED"@,
    ensures
        ({
            let raw = pr_json_result(h[i].result->Ok_0.stdout)->Ok_0;
            let method = if raw.merge_commit is None {
                MergeMethod::Rebase
            } else if ran_ok(h[i + 1].result) && count_prefixed(lines_view(h[i + 1].result->Ok_0.stdout), "parent "@)
                == 2 {
                MergeMethod::Merge
            } else {
                MergeMethod::Squash
            };
            &&& lookup_runs(h, i) == if raw.merge_commit is Some {
                2int
            } else {
                1int
            }
            &&& lookup_at(h, i) matches Ok(Some(p)) && p.state == (PrStateView::Merged {
                method,
                merge_commit: raw.merge_commit,
            })
        }),
{
    reveal_strlit("MERGED");
    reveal_strlit("OPEN");
    assert("MERGED"@[0] != "OPEN"@[0]);
}

/// A failed `gh pr view` is the lookup's only run, and decides it from what
/// it printed: "no pull requests found" or "Could not resolve" mean no pull
/// request, then "auth login" means `gh` is not authenticated, and anything
/// else is reported as the failure of `gh pr view`.
pub proof fn lemma_failed_pr_view(h: Seq<CallRecord>, i: int)
    requires
        0 <= i < h.len(),
        h[i].result matches Ok(o) && !o.success,
    ensures
        lookup_runs(h, i) == 1,
        lookup_at(h, i) == pr_view_error_view(h[i].result->Ok_0.stderr),
{
}

/// `h` is `h0` followed by exactly the runs of a pull request lookup for `branch`.
pub open spec fn looked_up(h0: Seq<CallRecord>, h: Seq<CallRecord>, branch: Seq<char>) -> bool {
    &&& h.take(h0.len() as int) == h0
    &&& h.len() == h0.len() + lookup_runs(h, h0.len() as int)
    &&& lookup_calls_at(h, h0.len() as int, branch)
}

/// Interpret a failed `gh pr view` from what it printed to standard error.
pub fn handle_pr_view_error(stderr: &str) -> (r: Result<Option<PrInfo>, GwError>)
    ensures
        pr_result_view(r) == pr_view_error_view(stderr@),
{
    if str_contains(stderr, "no pull requests found") || str_contains(stderr, "Could not resolve") {
        return Ok(None);
    }
    if str_contains(stderr, "auth login") {
        return Err(GwError::Other("GitHub CLI not authenticated. Run: gh auth login".to_string()));
    }
    let t = trim(stderr);
    Err(GwError::GitCommandFailed(cat("gh pr view failed: ", t.as_str())))
}

/// Count the lines of `text` that begin with `prefix`.
pub fn count_lines_with_prefix(text: &str, prefix: &str) -> (r: usize)
    ensures
        r == count_prefixed(lines_view(text@), prefix@),
{
    let ls = lines(text);
    let ghost lv = lines_view(text@);
    let mut n: usize = 0;
    let mut i: usize = 0;
    while i < ls.len()
        invariant
            i <= ls.len(),
            lv == crate::text::strings_view(ls@),
            n == count_prefixed(lv.take(i as int), prefix@),
            n <= i,
        decreases ls.len() - i,
    {
        proof {
            assert(lv.take(i + 1).drop_last() =~= lv.take(i as int));
        }
        if starts_with(ls[i].as_str(), prefix) {
            n = n + 1;
        }
        i = i + 1;
    }
    assert(lv.take(ls.len() as int) =~= lv);
    n
}

/// The merge method that a `git cat-file -p <commit>` run shows.
pub fn merge_method_from_cat_file(r: &Result<CommandOutput, GwError>) -> (m: MergeMethod)
    ensures
        m == merge_method_from_commit(run_result_view(*r)),
{
    match r {
        Ok(o) => {
            if !o.success {
                return MergeMethod::Squash;
            }
            if count_lines_with_prefix(o.stdout.as_str(), "parent ") == 2 {
                MergeMethod::Merge
            } else {
                MergeMethod::Squash
            }
        },
        Err(_) => MergeMethod::Squash,
    }
}

/// The pull request made from raw fields and the merge method.
pub fn pr_info_from_raw(raw: RawPrData, method: MergeMethod) -> (r: PrInfo)
    ensures
        r@ == pr_info_from_raw_view(raw@, method),
{
    let state = if str_eq(raw.state.as_str(), "OPEN") {
        PrState::Open
    } else if str_eq(raw.state.as_str(), "MERGED") {
        PrState::Merged { method, merge_commit: raw.merge_commit }
    } else {
        PrState::Closed
    };
    PrInfo {
        number: raw.number,
        title: raw.title,
        url: raw.url,
        state,
        base_branch: raw.base_branch,
        head_branch: raw.head_branch,
    }
}

/// Whether `gh` runs at all (`gh --version`).
pub fn is_gh_available<E: CommandExecutor>(exec: &mut E) -> (r: bool)
    ensures
        answers_kept(*old(exec), *final(exec)),
        final(exec).history().len() == old(exec).history().len() + 1,
        final(exec).history().drop_last() == old(exec).history(),
        final(exec).history().last().program == "gh"@,
        final(exec).history().last().args == seq!["--version"@],
        final(exec).history().last().dir is None,
        r == ran_ok(final(exec).history().last().result),
{
    let r = exec.execute("gh", &["--version"]);
    proof {
        assert(args_view(seq!["--version"]) =~= seq!["--version"@]);
    }
    match r {
        Ok(o) => o.success,
        Err(_) => false,
    }
}

/// Whether `gh` is logged in (`gh auth status`).
pub fn is_gh_authenticated<E: CommandExecutor>(exec: &mut E) -> (r: bool)
    ensures
        answers_kept(*old(exec), *final(exec)),
        final(exec).history().len() == old(exec).history().len() + 1,
        final(exec).history().drop_last() == old(exec).history(),
        final(exec).history().last().program == "gh"@,
        final(exec).history().last().args == seq!["auth"@, "status"@],
        final(exec).history().last().dir is None,
        r == ran_ok(final(exec).history().last().result),
{
    let r = exec.execute("gh", &["auth", "status"]);
    proof {
        assert(args_view(seq!["auth", "status"]) =~= seq!["auth"@, "status"@]);
    }
    match r {
        Ok(o) => o.success,
        Err(_) => false,
    }
}

/// A GitHub client that runs its commands through an executor.
pub struct GitHubClient<E: CommandExecutor> {
    executor: E,
}

impl<E: CommandExecutor> GitHubClient<E> {
    /// The executor that the client runs its commands through.
    pub closed spec fn exec_spec(&self) -> E {
        self.executor
    }

    /// The executor's history of commands.
    pub open spec fn history(&self) -> Seq<CallRecord> {
        self.exec_spec().history()
    }

    /// What the executor is known to answer to `program` with `args`.
    pub open spec fn known_answer(&self, program: Seq<char>, args: Seq<Seq<char>>) -> Option<CommandOutputView> {
        self.exec_spec().known_answer(program, args)
    }

    /// A client that runs its commands through `executor`.
    pub fn with_executor(executor: E) -> (r: Self)
        ensures
            r.exec_spec() == executor,
    {
        GitHubClient { executor }
    }

    /// The executor, to inspect what it ran.
    pub fn executor(&self) -> (r: &E)
        ensures
            *r == self.exec_spec(),
    {
        &self.executor
    }

    /// The executor, to change how it answers.
    pub fn executor_mut(&mut self) -> (r: &mut E)
        ensures
            *r == old(self).exec_spec(),
            final(self).exec_spec() == *final(r),
    {
        &mut self.executor
    }

    /// Whether `gh` runs at all (`gh --version`).
    pub fn is_available(&mut self) -> (r: bool)
        ensures
            answers_kept(old(self).exec_spec(), final(self).exec_spec()),
            final(self).history().len() == old(self).history().len() + 1,
            final(self).history().drop_last() == old(self).history(),
            final(self).history().last().program == "gh"@,
            final(self).history().last().args == seq!["--version"@],
            final(self).history().last().dir is None,
            r == ran_ok(final(self).history().last().result),
    {
        is_gh_available(&mut self.executor)
    }

    /// Whether `gh` is logged in (`gh auth status`).
    pub fn is_authenticated(&mut self) -> (r: bool)
        ensures
            answers_kept(old(self).exec_spec(), final(self).exec_spec()),
            final(self).history().len() == old(self).history().len() + 1,
            final(self).history().drop_last() == old(self).history(),
            final(self).history().last().program == "gh"@,
            final(self).history().last().args == seq!["auth"@, "status"@],
            final(self).history().last().dir is None,
            r == ran_ok(final(self).history().last().result),
    {
        is_gh_authenticated(&mut self.executor)
    }

    /// The merge method of a merged pull request: without a merge commit it
    /// was rebased; otherwise `git cat-file -p <commit>` is asked how many
    /// parents the commit has.
    pub fn detect_merge_method(&mut self, merge_commit: &Option<String>) -> (m: MergeMethod)
        ensures
            answers_kept(old(self).exec_spec(), final(self).exec_spec()),
            merge_commit is None ==> m == MergeMethod::Rebase && final(self).history() == old(self).history(),
            merge_commit matches Some(sha) ==> {
                &&& final(self).history().len() == old(self).history().len() + 1
                &&& final(self).history().drop_last() == old(self).history()
                &&& final(self).history().last().program == "git"@
                &&& final(self).history().last().args == cat_file_args(sha@)
                &&& final(self).history().last().dir is None
                &&& m == merge_method_from_commit(final(self).history().last().result)
            },
    {
        match merge_commit {
            None => MergeMethod::Rebase,
            Some(sha) => {
                let sha_s = sha.as_str();
                let r = self.executor.execute("git", &["cat-file", "-p", sha_s]);
                proof {
                    assert(args_view(seq!["cat-file", "-p", sha_s]) =~= cat_file_args(sha@));
                }
                merge_method_from_cat_file(&r)
            },
        }
    }

    /// The pull request for raw fields; for a merged one, its merge method is detected.
    pub fn convert_raw_to_pr_info(&mut self, raw: RawPrData) -> (r: Result<PrInfo, GwError>)
        ensures
            answers_kept(old(self).exec_spec(), final(self).exec_spec()),
            raw@.state == "MERGED"@ && raw@.merge_commit is Some ==> {
                &&& final(self).history().len() == old(self).history().len() + 1
                &&& final(self).history().drop_last() == old(self).history()
                &&& final(self).history().last().program == "git"@
                &&& final(self).history().last().args == cat_file_args(raw@.merge_commit->0)
                &&& final(self).history().last().dir is None
                &&& r matches Ok(p) && p@ == pr_info_from_raw_view(
                    raw@,
                    merge_method_from_commit(final(self).history().last().result),
                )
            },
            !(raw@.state == "MERGED"@ && raw@.merge_commit is Some) ==> {
                &&& final(self).history() == old(self).history()
                &&& r matches Ok(p) && p@ == pr_info_from_raw_view(raw@, MergeMethod::Rebase)
            },
    {
        if str_eq(raw.state.as_str(), "MERGED") {
            let method = self.detect_merge_method(&raw.merge_commit);
            Ok(pr_info_from_raw(raw, method))
        } else {
            Ok(pr_info_from_raw(raw, MergeMethod::Rebase))
        }
    }

    /// The pull request for a branch (or a pull request number), `None` when
    /// there is none.
    pub fn get_pr_for_branch(&mut self, branch: &str) -> (r: Result<Option<PrInfo>, GwError>)
        ensures
            answers_kept(old(self).exec_spec(), final(self).exec_spec()),
            looked_up(old(self).history(), final(self).history(), branch@),
            pr_result_view(r) == lookup_at(final(self).history(), old(self).history().len() as int),
    {
        let ghost h0 = self.history();
        let out = self.executor.execute(
            "gh",
            &["pr", "view", branch, "--json", "number,title,url,state,baseRefName,headRefName,mergeCommit,mergedAt"],
        );
        proof {
            assert(args_view(
                seq!["pr", "view", branch, "--json", "number,title,url,state,baseRefName,headRefName,mergeCommit,mergedAt"],
            ) =~= pr_view_args(branch@));
            assert(self.history().take(h0.len() as int) =~= h0);
        }
        let ghost h1 = self.history();
        let output = match out {
            Ok(o) => o,
            Err(e) => {
                return Err(e);
            },
        };
        if !output.success {
            return handle_pr_view_error(output.stderr.as_str());
        }
        let raw = match parse_pr_json(output.stdout.as_str()) {
            Ok(raw) => raw,
            Err(e) => {
                return Err(e);
            },
        };
        let info = self.convert_raw_to_pr_info(raw);
        proof {
            assert(self.history().take(h0.len() as int) =~= h0) by {
                assert(self.history().take(h1.len() as int) == h1);
            }
            assert(self.history()[h0.len() as int] == h1[h0.len() as int]);
        }
        match info {
            Ok(p) => Ok(Some(p)),
            Err(e) => Err(e),
        }
    }

    /// Delete `branch` on `origin` (`git push origin --delete`); a branch that
    /// is already gone is no error.
    pub fn delete_remote_branch(&mut self, branch: &str) -> (r: Result<(), GwError>)
        ensures
            answers_kept(old(self).exec_spec(), final(self).exec_spec()),
            final(self).history().len() == old(self).history().len() + 1,
            final(self).history().drop_last() == old(self).history(),
            final(self).history().last().program == "git"@,
            final(self).history().last().args == seq!["push"@, "origin"@, "--delete"@, branch@],
            final(self).history().last().dir is None,
            unit_result_view(r) == remote_delete_view(final(self).history().last().result),
    {
        let out = self.executor.execute("git", &["push", "origin", "--delete", branch]);
        proof {
            assert(args_view(seq!["push", "origin", "--delete", branch]) =~= seq![
                "push"@,
                "origin"@,
                "--delete"@,
                branch@,
            ]);
        }
        match out {
            Err(e) => Err(e),
            Ok(o) => {
                if o.success || str_contains(o.stderr.as_str(), "remote ref does not exist") {
                    Ok(())
                } else {
                    let t = trim(o.stderr.as_str());
                    Err(GwError::GitCommandFailed(cat("Failed to delete remote branch: ", t.as_str())))
                }
            },
        }
    }

    /// Comment on a pull request (`gh pr comment <n> -b <comment>`).
    pub fn add_pr_comment(&mut self, pr_number: u64, comment: &str) -> (r: Result<(), GwError>)
        ensures
            answers_kept(old(self).exec_spec(), final(self).exec_spec()),
            final(self).history().len() == old(self).history().len() + 1,
            final(self).history().drop_last() == old(self).history(),
            final(self).history().last().program == "gh"@,
            final(self).history().last().args == seq![
                "pr"@,
                "comment"@,
                decimal_view(pr_number as nat),
                "-b"@,
                comment@,
            ],
            final(self).history().last().dir is None,
            unit_result_view(r) == gh_edit_view(final(self).history().last().result, "Failed to add PR comment: "@),
    {
        let n = u64_to_decimal(pr_number);
        let ns = n.as_str();
        let out = self.executor.execute("gh", &["pr", "comment", ns, "-b", comment]);
        proof {
            assert(args_view(seq!["pr", "comment", ns, "-b", comment]) =~= seq![
                "pr"@,
                "comment"@,
                decimal_view(pr_number as nat),
                "-b"@,
                comment@,
            ]);
        }
        match out {
            Err(e) => Err(e),
            Ok(o) => {
                if o.success {
                    Ok(())
                } else {
                    let t = trim(o.stderr.as_str());
                    Err(GwError::GitCommandFailed(cat("Failed to add PR comment: ", t.as_str())))
                }
            },
        }
    }

    /// Move a pull request's base branch (`gh pr edit <n> --base <branch>`).
    pub fn update_pr_base(&mut self, pr_number: u64, new_base: &str) -> (r: Result<(), GwError>)
        ensures
            answers_kept(old(self).exec_spec(), final(self).exec_spec()),
            final(self).history().len() == old(self).history().len() + 1,
            final(self).history().drop_last() == old(self).history(),
            final(self).history().last().program == "gh"@,
            final(self).history().last().args == seq![
                "pr"@,
                "edit"@,
                decimal_view(pr_number as nat),
                "--base"@,
                new_base@,
            ],
            final(self).history().last().dir is None,
            unit_result_view(r) == gh_edit_view(final(self).history().last().result, "Failed to update PR base: "@),
    {
        let n = u64_to_decimal(pr_number);
        let ns = n.as_str();
        let out = self.executor.execute("gh", &["pr", "edit", ns, "--base", new_base]);
        proof {
            assert(args_view(seq!["pr", "edit", ns, "--base", new_base]) =~= seq![
                "pr"@,
                "edit"@,
                decimal_view(pr_number as nat),
                "--base"@,
                new_base@,
            ]);
        }
        match out {
            Err(e) => Err(e),
            Ok(o) => {
                if o.success {
                    Ok(())
                } else {
                    let t = trim(o.stderr.as_str());
                    Err(GwError::GitCommandFailed(cat("Failed to update PR base: ", t.as_str())))
                }
            },
        }
    }
}

} // verus!
