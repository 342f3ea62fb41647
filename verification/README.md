# git_workflow

`gw`, a worktree-aware git workflow tool (branch → pull request → cleanup),
written as a Verus-verified library with a thin command-line program around it.

## Layout

- `src/` — the verified library. Every git and `gh` command goes through a
  `CommandExecutor`, whose ghost history records each command run and what it
  reported; the contracts say which commands a function runs and how their
  reports become its result.
  - `git/` — the git operations, the lifecycle paths (lock, sync journal).
  - `github/` — the GitHub client, the pull-request JSON reader, a scripted
    executor for tests.
  - `state/` — repository, branch, working-tree and upstream states, and the
    recommended next action.
  - `pool/` — the worktree pool's entries, names and scan.
  - `commands/` — the decisions of each command: sync planning and its
    journaled phases, the cleanup guards against stacked dependents, the CI
    wait, the pool commands' rules, and the lines they print.
- `app/` — the `gw` program: argument parsing, processes, files, locks,
  sleeping between polls, and printing.
- `tests/` — tests of the library against scripted command answers.
