//! A command executor that answers from configured responses, for testing.

use vstd::prelude::*;

use crate::error::GwError;
use crate::github::client::{
    args_view, run_result_view, CallRecord, CommandExecutor, CommandOutput, CommandOutputView,
};
use crate::text::{
    cat, cat3, decimal_view, join_view, lemma_decimal_plain, lemma_join_then_newline, lemma_lines_of_last_line,
    lemma_lines_of_line, lemma_lines_of_unlines, lines_view, pad_decimal, padded_view, plain_line, seq_starts_with,
    str_eq, strings_view, unlines_view,
};

verus! {

/// A command that the mock executor received.
#[derive(Debug, Clone)]
pub struct CommandCall {
    pub program: String,
    pub args: Vec<String>,
    pub dir: Option<String>,
}

/// A received command with texts as character sequences.
pub struct CommandCallView {
    pub program: Seq<char>,
    pub args: Seq<Seq<char>>,
    pub dir: Option<Seq<char>>,
}

impl View for CommandCall {
    type V = CommandCallView;

    open spec fn view(&self) -> CommandCallView {
        CommandCallView {
            program: self.program@,
            args: strings_view(self.args@),
            dir: crate::error::opt_view(self.dir),
        }
    }
}

/// The views of received commands.
pub open spec fn calls_view(c: Seq<CommandCall>) -> Seq<CommandCallView> {
    c.map_values(|x: CommandCall| x@)
}

/// The key a command is configured under: the program and its arguments, joined by spaces.
pub open spec fn key_view(program: Seq<char>, args: Seq<Seq<char>>) -> Seq<char> {
    join_view(seq![program] + args, " "@)
}

/// How many of the calls ran `program`.
pub open spec fn count_program(calls: Seq<CommandCallView>, program: Seq<char>) -> nat
    decreases calls.len(),
{
    if calls.len() == 0 {
        0
    } else {
        count_program(calls.drop_last(), program) + if calls.last().program == program {
            1nat
        } else {
            0nat
        }
    }
}

/// The output configured last under `key`, if any.
pub open spec fn configured(responses: Seq<(Seq<char>, CommandOutputView)>, key: Seq<char>) -> Option<
    CommandOutputView,
>
    decreases responses.len(),
{
    if responses.len() == 0 {
        None
    } else if responses.last().0 == key {
        Some(responses.last().1)
    } else {
        configured(responses.drop_last(), key)
    }
}

/// A response configured for a key is the answer to that key until another
/// is configured for the same key; configuring it changes no other key's answer.
pub proof fn lemma_configured_answer(
    responses: Seq<(Seq<char>, CommandOutputView)>,
    key: Seq<char>,
    output: CommandOutputView,
    other: Seq<char>,
)
    ensures
        configured(responses.push((key, output)), key) == Some(output),
        other != key ==> configured(responses.push((key, output)), other) == configured(responses, other),
{
    assert(responses.push((key, output)).drop_last() =~= responses);
}

/// A copy of a command output.
pub fn copy_output(o: &CommandOutput) -> (r: CommandOutput)
    ensures
        r@ == o@,
{
    CommandOutput { success: o.success, code: o.code, stdout: o.stdout.clone(), stderr: o.stderr.clone() }
}

fn copy_call(c: &CommandCall) -> (r: CommandCall)
    ensures
        r@ == c@,
{
    let mut args: Vec<String> = Vec::new();
    let mut i: usize = 0;
    while i < c.args.len()
        invariant
            i <= c.args.len(),
            strings_view(args@) == strings_view(c.args@).take(i as int),
        decreases c.args.len() - i,
    {
        let ghost before = args@;
        let a = c.args[i].clone();
        args.push(a);
        proof {
            assert(args@ == before.push(a));
            assert(strings_view(c.args@).take(i + 1) =~= strings_view(c.args@).take(i as int).push(a@));
            assert(strings_view(args@) =~= strings_view(before).push(a@));
        }
        i = i + 1;
    }
    assert(strings_view(c.args@).take(c.args.len() as int) =~= strings_view(c.args@));
    let dir = match &c.dir {
        Some(d) => Some(d.clone()),
        None => None,
    };
    CommandCall { program: c.program.clone(), args, dir }
}

fn strs_to_strings(args: &[&str]) -> (r: Vec<String>)
    ensures
        strings_view(r@) == args_view(args@),
{
    let mut v: Vec<String> = Vec::new();
    let mut i: usize = 0;
    while i < args.len()
        invariant
            i <= args.len(),
            strings_view(v@) == args_view(args@).take(i as int),
        decreases args.len() - i,
    {
        let ghost before = v@;
        let a = args[i].to_string();
        v.push(a);
        proof {
            assert(args_view(args@).take(i + 1) =~= args_view(args@).take(i as int).push(a@));
            assert(strings_view(v@) =~= strings_view(before).push(a@));
        }
        i = i + 1;
    }
    assert(args_view(args@).take(args.len() as int) =~= args_view(args@));
    v
}

/// A command executor that answers each command with the output configured
/// for it (the last one configured wins), or with a default output, and
/// records every command it receives.
#[derive(Clone)]
pub struct MockCommandExecutor {
    responses: Vec<(String, CommandOutput)>,
    calls: Vec<CommandCall>,
    default_response: CommandOutput,
    records: Ghost<Seq<CallRecord>>,
}

impl MockCommandExecutor {
    /// The configured responses, oldest first.
    pub closed spec fn responses_view(&self) -> Seq<(Seq<char>, CommandOutputView)> {
        self.responses@.map_values(|p: (String, CommandOutput)| (p.0@, p.1@))
    }

    /// The output for commands that have no configured response.
    pub closed spec fn default_view(&self) -> CommandOutputView {
        self.default_response@
    }

    /// The commands received so far.
    pub closed spec fn calls_spec(&self) -> Seq<CommandCallView> {
        calls_view(self.calls@)
    }

    /// The output that a command with `key` receives.
    pub open spec fn answer(&self, key: Seq<char>) -> CommandOutputView {
        match configured(self.responses_view(), key) {
            Some(o) => o,
            None => self.default_view(),
        }
    }

    /// An executor with no responses, whose default output is a failure
    /// saying "command not configured".
    pub fn new() -> (r: Self)
        ensures
            r.responses_view().len() == 0,
            r.calls_spec().len() == 0,
            r.history().len() == 0,
            r.default_view() == (crate::github::client::failure_view("command not configured"@)),
    {
        let r = MockCommandExecutor {
            responses: Vec::new(),
            calls: Vec::new(),
            default_response: CommandOutput::failure("command not configured"),
            records: Ghost(Seq::empty()),
        };
        assert(r.responses_view() =~= Seq::empty());
        assert(r.calls_spec() =~= Seq::empty());
        r
    }

    /// The same executor with another default output.
    pub fn with_default_response(self, output: CommandOutput) -> (r: Self)
        ensures
            r.default_view() == output@,
            r.responses_view() == self.responses_view(),
            r.calls_spec() == self.calls_spec(),
            r.history() == self.history(),
    {
        MockCommandExecutor { default_response: output, ..self }
    }

    /// Answer the command `program args` with `output` from now on.
    pub fn on_command(&mut self, program: &str, args: &[&str], output: CommandOutput)
        ensures
            final(self).responses_view() == old(self).responses_view().push(
                (key_view(program@, args_view(args@)), output@),
            ),
            final(self).default_view() == old(self).default_view(),
            final(self).calls_spec() == old(self).calls_spec(),
            final(self).history() == old(self).history(),
    {
        let key = self.make_key(program, args);
        self.responses.push((key, output));
        assert(self.responses_view() =~= old(self).responses_view().push(
            (key_view(program@, args_view(args@)), output@),
        ));
    }

    /// The commands received so far.
    pub fn calls(&self) -> (r: Vec<CommandCall>)
        ensures
            calls_view(r@) == self.calls_spec(),
    {
        let mut v: Vec<CommandCall> = Vec::new();
        let mut i: usize = 0;
        while i < self.calls.len()
            invariant
                i <= self.calls.len(),
                calls_view(v@) == calls_view(self.calls@).take(i as int),
            decreases self.calls.len() - i,
        {
            let ghost before = v@;
            let c = copy_call(&self.calls[i]);
            v.push(c);
            proof {
                assert(calls_view(self.calls@).take(i + 1) =~= calls_view(self.calls@).take(i as int).push(c@));
                assert(calls_view(v@) =~= calls_view(before).push(c@));
            }
            i = i + 1;
        }
        assert(calls_view(self.calls@).take(self.calls.len() as int) =~= calls_view(self.calls@));
        v
    }

    /// Whether `program args` was received (in any directory).
    pub fn was_called(&self, program: &str, args: &[&str]) -> (r: bool)
        ensures
            r == exists|i: int|
                0 <= i < self.calls_spec().len() && (#[trigger] self.calls_spec()[i]).program == program@
                    && self.calls_spec()[i].args == args_view(args@),
    {
        let wanted = strs_to_strings(args);
        let mut i: usize = 0;
        while i < self.calls.len()
            invariant
                i <= self.calls.len(),
                strings_view(wanted@) == args_view(args@),
                forall|j: int|
                    0 <= j < i ==> !((#[trigger] self.calls_spec()[j]).program == program@
                        && self.calls_spec()[j].args == args_view(args@)),
            decreases self.calls.len() - i,
        {
            let c = &self.calls[i];
            if str_eq(c.program.as_str(), program) && strings_equal(&c.args, &wanted) {
                assert(self.calls_spec()[i as int] == c@);
                return true;
            }
            assert(self.calls_spec()[i as int] == c@);
            i = i + 1;
        }
        false
    }

    /// How many received commands ran `program`.
    pub fn call_count(&self, program: &str) -> (r: usize)
        ensures
            r == count_program(self.calls_spec(), program@),
    {
        let mut n: usize = 0;
        let mut i: usize = 0;
        while i < self.calls.len()
            invariant
                i <= self.calls.len(),
                n <= i,
                n == count_program(self.calls_spec().take(i as int), program@),
            decreases self.calls.len() - i,
        {
            proof {
                assert(self.calls_spec().take(i + 1).drop_last() =~= self.calls_spec().take(i as int));
                assert(self.calls_spec()[i as int] == self.calls@[i as int]@);
            }
            if str_eq(self.calls[i].program.as_str(), program) {
                n = n + 1;
            }
            i = i + 1;
        }
        assert(self.calls_spec().take(self.calls.len() as int) =~= self.calls_spec());
        n
    }

    /// Forget the commands received so far.
    pub fn clear_calls(&mut self)
        ensures
            final(self).calls_spec().len() == 0,
            final(self).history().len() == 0,
            final(self).responses_view() == old(self).responses_view(),
            final(self).default_view() == old(self).default_view(),
    {
        self.calls = Vec::new();
        self.records = Ghost(Seq::empty());
        assert(self.calls_spec() =~= Seq::empty());
    }

    /// The key of a command: the program and its arguments joined by spaces.
    pub fn make_key(&self, program: &str, args: &[&str]) -> (r: String)
        ensures
            r@ == key_view(program@, args_view(args@)),
    {
        let mut parts: Vec<String> = Vec::new();
        parts.push(program.to_string());
        let rest = strs_to_strings(args);
        let mut i: usize = 0;
        while i < rest.len()
            invariant
                i <= rest.len(),
                strings_view(parts@) == seq![program@] + strings_view(rest@).take(i as int),
            decreases rest.len() - i,
        {
            let ghost before = parts@;
            let a = rest[i].clone();
            parts.push(a);
            proof {
                assert(strings_view(rest@).take(i + 1) =~= strings_view(rest@).take(i as int).push(a@));
                assert(strings_view(parts@) =~= strings_view(before).push(a@));
            }
            i = i + 1;
        }
        assert(strings_view(rest@).take(rest.len() as int) =~= strings_view(rest@));
        crate::text::join(&parts, " ")
    }

    fn record_call(&mut self, program: &str, args: &[&str], dir: Option<&str>)
        ensures
            final(self).calls_spec() == old(self).calls_spec().push(
                CommandCallView {
                    program: program@,
                    args: args_view(args@),
                    dir: match dir {
                        Some(d) => Some(d@),
                        None => None,
                    },
                },
            ),
            final(self).responses_view() == old(self).responses_view(),
            final(self).default_view() == old(self).default_view(),
            final(self).history() == old(self).history(),
    {
        let d = match dir {
            Some(d) => Some(d.to_string()),
            None => None,
        };
        let call = CommandCall { program: program.to_string(), args: strs_to_strings(args), dir: d };
        self.calls.push(call);
        assert(self.calls_spec() =~= old(self).calls_spec().push(call@));
    }

    fn answer_for(&self, program: &str, args: &[&str]) -> (r: CommandOutput)
        ensures
            r@ == self.answer(key_view(program@, args_view(args@))),
    {
        let key = self.make_key(program, args);
        let mut i: usize = self.responses.len();
        assert(self.responses_view().take(i as int) =~= self.responses_view());
        while i > 0
            invariant
                i <= self.responses.len(),
                key@ == key_view(program@, args_view(args@)),
                configured(self.responses_view(), key@) == configured(
                    self.responses_view().take(i as int),
                    key@,
                ),
            decreases i,
        {
            let ghost pre = self.responses_view().take(i as int);
            assert(pre.last() == (self.responses@[i - 1].0@, self.responses@[i - 1].1@));
            if str_eq(self.responses[i - 1].0.as_str(), key.as_str()) {
                return copy_output(&self.responses[i - 1].1);
            }
            assert(pre.drop_last() =~= self.responses_view().take(i - 1));
            i = i - 1;
        }
        copy_output(&self.default_response)
    }
}

fn strings_equal(a: &Vec<String>, b: &Vec<String>) -> (r: bool)
    ensures
        r == (strings_view(a@) == strings_view(b@)),
{
    if a.len() != b.len() {
        assert(strings_view(a@).len() != strings_view(b@).len());
        return false;
    }
    let mut i: usize = 0;
    while i < a.len()
        invariant
            i <= a.len(),
            a.len() == b.len(),
            forall|j: int| 0 <= j < i ==> a@[j]@ == b@[j]@,
        decreases a.len() - i,
    {
        if !str_eq(a[i].as_str(), b[i].as_str()) {
            assert(strings_view(a@)[i as int] != strings_view(b@)[i as int]);
            return false;
        }
        i = i + 1;
    }
    assert(strings_view(a@) =~= strings_view(b@));
    true
}

impl Default for MockCommandExecutor {
    fn default() -> (r: Self)
        ensures
            r.responses_view().len() == 0,
            r.calls_spec().len() == 0,
            r.history().len() == 0,
    {
        MockCommandExecutor::new()
    }
}

/// The output of `git cat-file -p` for a commit with `parent_count` parents.
pub open spec fn commit_object_view(parent_count: nat) -> Seq<char> {
    "tree def456\n"@ + join_view(
        Seq::new(parent_count, |i: int| "parent abc"@ + padded_view(i as nat, 3)),
        "\n"@,
    ) + "\nauthor Test <test@example.com>\ncommitter Test <test@example.com>\n\nMerge commit"@
}

/// The parent lines of a commit object with `parent_count` parents.
pub open spec fn parent_lines(parent_count: nat) -> Seq<Seq<char>> {
    Seq::new(parent_count, |i: int| "parent abc"@ + padded_view(i as nat, 3))
}

/// A commit object built with `parent_count` parents shows exactly that many
/// `parent ` lines, so its merge method is read from its parent count: two
/// parents make a merge commit, any other count a squash.
pub proof fn lemma_commit_object_parents(parent_count: nat)
    ensures
        crate::github::client::count_prefixed(lines_view(commit_object_view(parent_count)), "parent "@)
            == parent_count,
        crate::github::client::merge_method_from_commit(
            Ok(crate::github::client::success_view(commit_object_view(parent_count))),
        ) == if parent_count == 2 {
            crate::github::types::MergeMethod::Merge
        } else {
            crate::github::types::MergeMethod::Squash
        },
{
    reveal_strlit("tree def456\n");
    reveal_strlit("\nauthor Test <test@example.com>\ncommitter Test <test@example.com>\n\nMerge commit");
    reveal_strlit("tree def456");
    reveal_strlit("author Test <test@example.com>");
    reveal_strlit("committer Test <test@example.com>");
    reveal_strlit("Merge commit");
    reveal_strlit("parent abc");
    reveal_strlit("parent ");
    reveal_strlit("\n");
    let nl = seq!['\n'];
    let t = "tree def456"@;
    let a = "author Test <test@example.com>"@;
    let c = "committer Test <test@example.com>"@;
    let m = "Merge commit"@;
    let e = Seq::<char>::empty();
    let q = seq![a, c, e];
    let p = parent_lines(parent_count);
    let pre = "parent "@;
    assert("\n"@ =~= nl);
    assert("tree def456\n"@ =~= t + nl);
    let long = "\nauthor Test <test@example.com>\ncommitter Test <test@example.com>\n\nMerge commit"@;
    assert(long =~= nl + a + nl + c + nl + e + nl + m);
    assert(plain_line(t));
    assert(plain_line(a));
    assert(plain_line(c));
    assert(plain_line(e));
    assert(plain_line(m));
    assert(m.len() > 0);
    assert(q.drop_first() =~= seq![c, e]);
    assert(q.drop_first().drop_first() =~= seq![e]);
    assert(q.drop_first().drop_first().drop_first() =~= Seq::<Seq<char>>::empty());
    assert(seq![e].drop_first() =~= Seq::<Seq<char>>::empty());
    assert(unlines_view(Seq::<Seq<char>>::empty()) =~= Seq::<char>::empty());
    assert(unlines_view(seq![e]) =~= e + nl + Seq::<char>::empty());
    assert(unlines_view(seq![c, e]) =~= c + nl + unlines_view(seq![e]));
    assert(unlines_view(q) =~= a + nl + unlines_view(seq![c, e]));
    assert(unlines_view(q) + m =~= a + nl + c + nl + e + nl + m);
    assert forall|i: int| 0 <= i < q.len() implies plain_line(#[trigger] q[i]) by {}
    assert forall|i: int| 0 <= i < p.len() implies plain_line(#[trigger] p[i]) && seq_starts_with(p[i], pre) by {
        let d = decimal_view(i as nat);
        lemma_decimal_plain(i as nat);
        let pv = padded_view(i as nat, 3);
        assert(d.len() > 0);
        assert forall|j: int| 0 <= j < pv.len() implies pv[j] != '\n' && pv[j] != '\r' by {
            if d.len() < 3 {
                let z = Seq::new((3 - d.len()) as nat, |i: int| '0');
                assert(pv == z + d);
                if j >= z.len() {
                    assert(pv[j] == d[j - z.len()]);
                }
            }
        }
        assert(pv.len() > 0);
        assert(p[i] == "parent abc"@ + pv);
        assert(p[i].last() == pv.last());
        assert forall|j: int| 0 <= j < p[i].len() implies p[i][j] != '\n' by {
            if j >= 10 {
                assert(p[i][j] == pv[j - 10]);
            }
        }
        assert(p[i].take(7) =~= pre);
    }
    // the lines: the tree, the parents, author, committer, a blank line, the message
    lemma_lines_of_last_line(m);
    lemma_lines_of_unlines(q, m);
    let tail = unlines_view(q) + m;
    let ls = if parent_count == 0 {
        seq![t, e] + q + seq![m]
    } else {
        seq![t] + p + q + seq![m]
    };
    if parent_count == 0 {
        assert(join_view(p, nl) =~= Seq::<char>::empty());
        assert(commit_object_view(parent_count) =~= t + nl + (e + nl + tail));
        lemma_lines_of_line(e, tail);
        lemma_lines_of_line(t, e + nl + tail);
        assert(lines_view(commit_object_view(parent_count)) =~= ls);
    } else {
        lemma_join_then_newline(p);
        lemma_lines_of_unlines(p, tail);
        assert(commit_object_view(parent_count) =~= t + nl + (unlines_view(p) + tail));
        lemma_lines_of_line(t, unlines_view(p) + tail);
        assert(lines_view(commit_object_view(parent_count)) =~= ls);
    }
    // counting the parent lines
    assert(!seq_starts_with(t, pre)) by {
        assert(t.take(7)[0] != pre[0]);
    }
    assert(!seq_starts_with(a, pre)) by {
        assert(a.take(7)[0] != pre[0]);
    }
    assert(!seq_starts_with(c, pre)) by {
        assert(c.take(7)[0] != pre[0]);
    }
    assert(!seq_starts_with(e, pre));
    assert(!seq_starts_with(m, pre)) by {
        assert(m.take(7)[0] != pre[0]);
    }
    lemma_all_prefixed(p, pre);
    let cp = crate::github::client::count_prefixed(q, pre);
    assert(q.drop_last() =~= seq![a, c]);
    assert(seq![a, c].drop_last() =~= seq![a]);
    assert(seq![a].drop_last() =~= Seq::<Seq<char>>::empty());
    assert(crate::github::client::count_prefixed(Seq::<Seq<char>>::empty(), pre) == 0);
    assert(crate::github::client::count_prefixed(seq![a], pre) == 0);
    assert(crate::github::client::count_prefixed(seq![a, c], pre) == 0);
    assert(cp == 0);
    assert(seq![t].drop_last() =~= Seq::<Seq<char>>::empty() && seq![t].last() == t);
    assert(crate::github::client::count_prefixed(seq![t], pre) == 0);
    assert(seq![t, e].drop_last() =~= seq![t] && seq![t, e].last() == e);
    assert(crate::github::client::count_prefixed(seq![t, e], pre) == 0);
    assert(seq![m].drop_last() =~= Seq::<Seq<char>>::empty() && seq![m].last() == m);
    assert(crate::github::client::count_prefixed(seq![m], pre) == 0);
    assert(seq![t, e].drop_last() =~= seq![t]);
    assert(seq![t].drop_last() =~= Seq::<Seq<char>>::empty());
    assert(seq![m].drop_last() =~= Seq::<Seq<char>>::empty());
    crate::github::client::lemma_count_prefixed_concat(seq![t, e] + q, seq![m], pre);
    crate::github::client::lemma_count_prefixed_concat(seq![t, e], q, pre);
    crate::github::client::lemma_count_prefixed_concat(seq![t] + p + q, seq![m], pre);
    crate::github::client::lemma_count_prefixed_concat(seq![t] + p, q, pre);
    crate::github::client::lemma_count_prefixed_concat(seq![t], p, pre);
    assert(crate::github::client::count_prefixed(ls, pre) == parent_count);
}

/// Lines that all begin with `prefix` are all counted.
proof fn lemma_all_prefixed(ls: Seq<Seq<char>>, prefix: Seq<char>)
    requires
        forall|i: int| 0 <= i < ls.len() ==> seq_starts_with(#[trigger] ls[i], prefix),
    ensures
        crate::github::client::count_prefixed(ls, prefix) == ls.len(),
    decreases ls.len(),
{
    if ls.len() > 0 {
        assert(seq_starts_with(ls[ls.len() - 1], prefix));
        lemma_all_prefixed(ls.drop_last(), prefix);
    }
}

/// Builds a mock executor that plays a GitHub scenario.
pub struct MockScenarioBuilder {
    executor: MockCommandExecutor,
}

impl MockScenarioBuilder {
    /// The executor being built.
    pub closed spec fn mock(&self) -> MockCommandExecutor {
        self.executor
    }

    /// A scenario with nothing configured.
    pub fn new() -> (r: Self)
        ensures
            r.mock().responses_view().len() == 0,
            r.mock().calls_spec().len() == 0,
            r.mock().history().len() == 0,
    {
        MockScenarioBuilder { executor: MockCommandExecutor::new() }
    }

    /// `gh` is installed and logged in.
    pub fn gh_available(self) -> (r: Self)
        ensures
            r.mock().responses_view() == self.mock().responses_view().push(
                (key_view("gh"@, seq!["--version"@]), crate::github::client::success_view("gh version 2.40.0"@)),
            ).push(
                (key_view("gh"@, seq!["auth"@, "status"@]), crate::github::client::success_view("Logged in"@)),
            ),
            r.mock().answer(key_view("gh"@, seq!["--version"@])) == crate::github::client::success_view("gh version 2.40.0"@),
            r.mock().answer(key_view("gh"@, seq!["auth"@, "status"@])) == crate::github::client::success_view("Logged in"@),
            r.mock().calls_spec() == self.mock().calls_spec(),
            r.mock().history() == self.mock().history(),
            r.mock().default_view() == self.mock().default_view(),
    {
        let mut e = self.executor;
        let a1: &[&str] = &["--version"];
        let a2: &[&str] = &["auth", "status"];
        proof {
            assert(a1@ =~= seq!["--version"]);
            assert(a2@ =~= seq!["auth", "status"]);
        }
        e.on_command("gh", a1, CommandOutput::success("gh version 2.40.0"));
        e.on_command("gh", a2, CommandOutput::success("Logged in"));
        proof {
            assert(args_view(seq!["--version"]) =~= seq!["--version"@]);
            assert(args_view(seq!["auth", "status"]) =~= seq!["auth"@, "status"@]);
        }
        proof {
            let rs = e.responses_view();
            lemma_gh_keys_differ();
            lemma_configured_answer(rs.drop_last(), key_view("gh"@, seq!["auth"@, "status"@]), rs.last().1, key_view("gh"@, seq!["--version"@]));
            lemma_configured_answer(rs.drop_last().drop_last(), key_view("gh"@, seq!["--version"@]), rs.drop_last().last().1, key_view("gh"@, seq!["--version"@]));
            assert(rs.drop_last().drop_last().push(rs.drop_last().last()) =~= rs.drop_last());
            assert(rs.drop_last().push(rs.last()) =~= rs);
        }
        MockScenarioBuilder { executor: e }
    }

    /// `gh` is not installed.
    pub fn gh_not_available(self) -> (r: Self)
        ensures
            r.mock().responses_view() == self.mock().responses_view().push(
                (
                    key_view("gh"@, seq!["--version"@]),
                    crate::github::client::failure_view("command not found: gh"@),
                ),
            ),
            r.mock().answer(key_view("gh"@, seq!["--version"@])) == crate::github::client::failure_view("command not found: gh"@),
            r.mock().calls_spec() == self.mock().calls_spec(),
            r.mock().history() == self.mock().history(),
            r.mock().default_view() == self.mock().default_view(),
    {
        let mut e = self.executor;
        let a1: &[&str] = &["--version"];
        proof {
            assert(a1@ =~= seq!["--version"]);
        }
        e.on_command("gh", a1, CommandOutput::failure("command not found: gh"));
        proof {
            assert(args_view(seq!["--version"]) =~= seq!["--version"@]);
        }
        proof {
            let rs = e.responses_view();
            lemma_configured_answer(rs.drop_last(), key_view("gh"@, seq!["--version"@]), rs.last().1, key_view("gh"@, seq!["--version"@]));
            assert(rs.drop_last().push(rs.last()) =~= rs);
        }
        MockScenarioBuilder { executor: e }
    }

    /// `gh` is installed but not logged in.
    pub fn gh_not_authenticated(self) -> (r: Self)
        ensures
            r.mock().responses_view() == self.mock().responses_view().push(
                (key_view("gh"@, seq!["--version"@]), crate::github::client::success_view("gh version 2.40.0"@)),
            ).push(
                (
                    key_view("gh"@, seq!["auth"@, "status"@]),
                    crate::github::client::failure_view("You are not logged into any GitHub hosts. Run gh auth login"@),
                ),
            ),
            r.mock().answer(key_view("gh"@, seq!["--version"@])) == crate::github::client::success_view("gh version 2.40.0"@),
            r.mock().answer(key_view("gh"@, seq!["auth"@, "status"@])) == crate::github::client::failure_view(
                "You are not logged into any GitHub hosts. Run gh auth login"@,
            ),
            r.mock().calls_spec() == self.mock().calls_spec(),
            r.mock().history() == self.mock().history(),
            r.mock().default_view() == self.mock().default_view(),
    {
        let mut e = self.executor;
        let a1: &[&str] = &["--version"];
        let a2: &[&str] = &["auth", "status"];
        proof {
            assert(a1@ =~= seq!["--version"]);
            assert(a2@ =~= seq!["auth", "status"]);
        }
        e.on_command("gh", a1, CommandOutput::success("gh version 2.40.0"));
        e.on_command(
            "gh",
            a2,
            CommandOutput::failure("You are not logged into any GitHub hosts. Run gh auth login"),
        );
        proof {
            assert(args_view(seq!["--version"]) =~= seq!["--version"@]);
            assert(args_view(seq!["auth", "status"]) =~= seq!["auth"@, "status"@]);
        }
        proof {
            let rs = e.responses_view();
            lemma_gh_keys_differ();
            lemma_configured_answer(rs.drop_last(), key_view("gh"@, seq!["auth"@, "status"@]), rs.last().1, key_view("gh"@, seq!["--version"@]));
            lemma_configured_answer(rs.drop_last().drop_last(), key_view("gh"@, seq!["--version"@]), rs.drop_last().last().1, key_view("gh"@, seq!["--version"@]));
            assert(rs.drop_last().drop_last().push(rs.drop_last().last()) =~= rs.drop_last());
            assert(rs.drop_last().push(rs.last()) =~= rs);
        }
        MockScenarioBuilder { executor: e }
    }

    fn on_pr_view(self, branch: &str, output: CommandOutput) -> (r: Self)
        ensures
            r.mock().responses_view() == self.mock().responses_view().push(
                (key_view("gh"@, crate::github::client::pr_view_args(branch@)), output@),
            ),
            r.mock().answer(key_view("gh"@, crate::github::client::pr_view_args(branch@))) == output@,
            r.mock().calls_spec() == self.mock().calls_spec(),
            r.mock().history() == self.mock().history(),
            r.mock().default_view() == self.mock().default_view(),
    {
        let mut e = self.executor;
        e.on_command(
            "gh",
            &["pr", "view", branch, "--json", "number,title,url,state,baseRefName,headRefName,mergeCommit,mergedAt"],
            output,
        );
        proof {
            assert(args_view(
                seq!["pr", "view", branch, "--json", "number,title,url,state,baseRefName,headRefName,mergeCommit,mergedAt"],
            ) =~= crate::github::client::pr_view_args(branch@));
        }
        proof {
            let rs = e.responses_view();
            let key = key_view("gh"@, crate::github::client::pr_view_args(branch@));
            lemma_configured_answer(rs.drop_last(), key, rs.last().1, key);
            assert(rs.drop_last().push(rs.last()) =~= rs);
        }
        MockScenarioBuilder { executor: e }
    }

    /// `gh pr view <branch>` prints `json`.
    pub fn with_pr(self, branch: &str, json: &str) -> (r: Self)
        ensures
            r.mock().responses_view() == self.mock().responses_view().push(
                (
                    key_view("gh"@, crate::github::client::pr_view_args(branch@)),
                    crate::github::client::success_view(json@),
                ),
            ),
            r.mock().answer(key_view("gh"@, crate::github::client::pr_view_args(branch@))) == crate::github::client::success_view(json@),
            r.mock().calls_spec() == self.mock().calls_spec(),
            r.mock().history() == self.mock().history(),
            r.mock().default_view() == self.mock().default_view(),
    {
        self.on_pr_view(branch, CommandOutput::success(json))
    }

    /// `gh pr view <branch>` finds no pull request.
    pub fn with_no_pr(self, branch: &str) -> (r: Self)
        ensures
            r.mock().responses_view() == self.mock().responses_view().push(
                (
                    key_view("gh"@, crate::github::client::pr_view_args(branch@)),
                    crate::github::client::failure_view("no pull requests found for branch \"branch\""@),
                ),
            ),
            r.mock().calls_spec() == self.mock().calls_spec(),
            r.mock().history() == self.mock().history(),
            r.mock().default_view() == self.mock().default_view(),
    {
        self.on_pr_view(branch, CommandOutput::failure("no pull requests found for branch \"branch\""))
    }

    /// `gh pr view <branch>` fails asking to log in.
    pub fn with_auth_error(self, branch: &str) -> (r: Self)
        ensures
            r.mock().responses_view() == self.mock().responses_view().push(
                (
                    key_view("gh"@, crate::github::client::pr_view_args(branch@)),
                    crate::github::client::failure_view(
                        "To get started with GitHub CLI, please run: gh auth login"@,
                    ),
                ),
            ),
            r.mock().calls_spec() == self.mock().calls_spec(),
            r.mock().history() == self.mock().history(),
            r.mock().default_view() == self.mock().default_view(),
    {
        self.on_pr_view(
            branch,
            CommandOutput::failure("To get started with GitHub CLI, please run: gh auth login"),
        )
    }

    /// `git cat-file -p <sha>` shows a commit with `parent_count` parents.
    pub fn with_merge_commit(self, sha: &str, parent_count: usize) -> (r: Self)
        ensures
            r.mock().responses_view() == self.mock().responses_view().push(
                (
                    key_view("git"@, crate::github::client::cat_file_args(sha@)),
                    crate::github::client::success_view(commit_object_view(parent_count as nat)),
                ),
            ),
            r.mock().answer(key_view("git"@, crate::github::client::cat_file_args(sha@)))
                == crate::github::client::success_view(commit_object_view(parent_count as nat)),
            crate::github::client::count_prefixed(lines_view(commit_object_view(parent_count as nat)), "parent "@)
                == parent_count,
            r.mock().calls_spec() == self.mock().calls_spec(),
            r.mock().history() == self.mock().history(),
            r.mock().default_view() == self.mock().default_view(),
    {
        let ghost pv = Seq::new(parent_count as nat, |i: int| "parent abc"@ + padded_view(i as nat, 3));
        let mut parents: Vec<String> = Vec::new();
        let mut i: usize = 0;
        while i < parent_count
            invariant
                i <= parent_count,
                pv == Seq::new(parent_count as nat, |i: int| "parent abc"@ + padded_view(i as nat, 3)),
                strings_view(parents@) =~= pv.take(i as int),
            decreases parent_count - i,
        {
            let d = pad_decimal(i as u64, 3);
            let line = cat("parent abc", d.as_str());
            let ghost before = parents@;
            parents.push(line);
            proof {
                assert(strings_view(parents@) =~= strings_view(before).push(line@));
                assert(pv.take(i + 1) =~= pv.take(i as int).push(line@));
            }
            i = i + 1;
        }
        assert(pv.take(parent_count as int) =~= pv);
        let body = crate::text::join(&parents, "\n");
        let output = cat3(
            "tree def456\n",
            body.as_str(),
            "\nauthor Test <test@example.com>\ncommitter Test <test@example.com>\n\nMerge commit",
        );
        let mut e = self.executor;
        e.on_command("git", &["cat-file", "-p", sha], CommandOutput::success(output.as_str()));
        proof {
            assert(args_view(seq!["cat-file", "-p", sha]) =~= crate::github::client::cat_file_args(sha@));
        }
        proof {
            let rs = e.responses_view();
            let key = key_view("git"@, crate::github::client::cat_file_args(sha@));
            lemma_configured_answer(rs.drop_last(), key, rs.last().1, key);
            assert(rs.drop_last().push(rs.last()) =~= rs);
            lemma_commit_object_parents(parent_count as nat);
        }
        MockScenarioBuilder { executor: e }
    }

    fn on_remote_delete(self, branch: &str, output: CommandOutput) -> (r: Self)
        ensures
            r.mock().responses_view() == self.mock().responses_view().push(
                (key_view("git"@, seq!["push"@, "origin"@, "--delete"@, branch@]), output@),
            ),
            r.mock().calls_spec() == self.mock().calls_spec(),
            r.mock().history() == self.mock().history(),
            r.mock().default_view() == self.mock().default_view(),
    {
        let mut e = self.executor;
        e.on_command("git", &["push", "origin", "--delete", branch], output);
        proof {
            assert(args_view(seq!["push", "origin", "--delete", branch]) =~= seq![
                "push"@,
                "origin"@,
                "--delete"@,
                branch@,
            ]);
        }
        MockScenarioBuilder { executor: e }
    }

    /// Deleting `branch` on `origin` succeeds.
    pub fn with_remote_delete_success(self, branch: &str) -> (r: Self)
        ensures
            r.mock().responses_view() == self.mock().responses_view().push(
                (
                    key_view("git"@, seq!["push"@, "origin"@, "--delete"@, branch@]),
                    crate::github::client::success_view(""@),
                ),
            ),
            r.mock().calls_spec() == self.mock().calls_spec(),
            r.mock().history() == self.mock().history(),
            r.mock().default_view() == self.mock().default_view(),
    {
        self.on_remote_delete(branch, CommandOutput::success(""))
    }

    /// `branch` is already gone from `origin`.
    pub fn with_remote_already_deleted(self, branch: &str) -> (r: Self)
        ensures
            r.mock().responses_view() == self.mock().responses_view().push(
                (
                    key_view("git"@, seq!["push"@, "origin"@, "--delete"@, branch@]),
                    crate::github::client::failure_view("error: unable to delete 'branch': remote ref does not exist"@),
                ),
            ),
            r.mock().calls_spec() == self.mock().calls_spec(),
            r.mock().history() == self.mock().history(),
            r.mock().default_view() == self.mock().default_view(),
    {
        self.on_remote_delete(
            branch,
            CommandOutput::failure("error: unable to delete 'branch': remote ref does not exist"),
        )
    }

    /// Deleting `branch` on `origin` fails with `error`.
    pub fn with_remote_delete_failure(self, branch: &str, error: &str) -> (r: Self)
        ensures
            r.mock().responses_view() == self.mock().responses_view().push(
                (
                    key_view("git"@, seq!["push"@, "origin"@, "--delete"@, branch@]),
                    crate::github::client::failure_view(error@),
                ),
            ),
            r.mock().calls_spec() == self.mock().calls_spec(),
            r.mock().history() == self.mock().history(),
            r.mock().default_view() == self.mock().default_view(),
    {
        self.on_remote_delete(branch, CommandOutput::failure(error))
    }

    /// The executor that plays the scenario.
    pub fn build(self) -> (r: MockCommandExecutor)
        ensures
            r == self.mock(),
    {
        self.executor
    }
}

impl Default for MockScenarioBuilder {
    fn default() -> (r: Self)
        ensures
            r.mock().responses_view().len() == 0,
            r.mock().calls_spec().len() == 0,
            r.mock().history().len() == 0,
    {
        MockScenarioBuilder::new()
    }
}

impl CommandExecutor for MockCommandExecutor {
    closed spec fn history(&self) -> Seq<CallRecord> {
        self.records@
    }

    /// Every command gets its configured answer, or the default one.
    open spec fn known_answer(&self, program: Seq<char>, args: Seq<Seq<char>>) -> Option<CommandOutputView> {
        Some(self.answer(key_view(program, args)))
    }

    fn execute(&mut self, program: &str, args: &[&str]) -> (r: Result<CommandOutput, GwError>)
        ensures
            r matches Ok(o) && o@ == old(self).answer(key_view(program@, args_view(args@))),
            final(self).responses_view() == old(self).responses_view(),
            final(self).default_view() == old(self).default_view(),
            final(self).calls_spec() == old(self).calls_spec().push(
                CommandCallView { program: program@, args: args_view(args@), dir: None },
            ),
    {
        self.record_call(program, args, None);
        let out = self.answer_for(program, args);
        let r = Ok(out);
        self.records = Ghost(
            self.records@.push(
                CallRecord { program: program@, args: args_view(args@), dir: None, result: run_result_view(r) },
            ),
        );
        r
    }

    fn execute_in_dir(&mut self, program: &str, args: &[&str], dir: &str) -> (r: Result<
        CommandOutput,
        GwError,
    >)
        ensures
            r matches Ok(o) && o@ == old(self).answer(key_view(program@, args_view(args@))),
            final(self).responses_view() == old(self).responses_view(),
            final(self).default_view() == old(self).default_view(),
            final(self).calls_spec() == old(self).calls_spec().push(
                CommandCallView { program: program@, args: args_view(args@), dir: Some(dir@) },
            ),
    {
        self.record_call(program, args, Some(dir));
        let out = self.answer_for(program, args);
        let r = Ok(out);
        self.records = Ghost(
            self.records@.push(
                CallRecord {
                    program: program@,
                    args: args_view(args@),
                    dir: Some(dir@),
                    result: run_result_view(r),
                },
            ),
        );
        r
    }
}


/// The two `gh` checks are told apart: `gh --version` and `gh auth status`
/// have different keys.
pub proof fn lemma_gh_keys_differ()
    ensures
        key_view("gh"@, seq!["--version"@]) != key_view("gh"@, seq!["auth"@, "status"@]),
{
    reveal_strlit("gh");
    reveal_strlit("--version");
    reveal_strlit("auth");
    reveal_strlit("status");
    reveal_strlit(" ");
    let k1 = key_view("gh"@, seq!["--version"@]);
    let k2 = key_view("gh"@, seq!["auth"@, "status"@]);
    let p1 = seq!["gh"@] + seq!["--version"@];
    let p2 = seq!["gh"@] + seq!["auth"@, "status"@];
    let g = seq!["gh"@];
    assert(p1.len() == 2 && p1.drop_last() =~= g && p1.last() == "--version"@);
    assert(p2.len() == 3 && p2.drop_last() =~= seq!["gh"@, "auth"@] && p2.last() == "status"@);
    assert(seq!["gh"@, "auth"@].drop_last() =~= g);
    assert(join_view(g, " "@) == "gh"@);
    assert(join_view(seq!["gh"@, "auth"@], " "@) == "gh"@ + " "@ + "auth"@);
    assert(k1 == "gh"@ + " "@ + "--version"@);
    assert(k2 == "gh"@ + " "@ + "auth"@ + " "@ + "status"@);
    assert(k1.len() == 12);
    assert(k2.len() == 14);
}

} // verus!
