//! Coordination of stack mutations across the clones that share one common
//! git directory.

use vstd::prelude::*;

use crate::error::{GwError, GwErrorView};
use crate::git::query::git_common_dir;
use crate::git::{output_view, ran_git, string_result_view, unit_view};
use crate::github::client::CommandExecutor;
use crate::text::{cat3, join_path, join_path_view};

verus! {

/// The name of the journal of an unfinished sync, in the common git directory.
pub open spec fn journal_name() -> Seq<char> {
    "gw-sync.json"@
}

/// The name of the lock file that serialises stack mutations.
pub open spec fn lock_name() -> Seq<char> {
    "gw-lifecycle.lock"@
}

/// The path of the sync journal: `gw-sync.json` in the common git directory.
pub fn sync_journal_path<E: CommandExecutor>(exec: &mut E) -> (r: Result<String, GwError>)
    ensures
        ran_git(old(exec).history(), final(exec).history(), seq!["rev-parse"@, "--git-common-dir"@]),
        string_result_view(r) == match output_view(final(exec).history().last().result) {
            Ok(dir) => Ok(join_path_view(dir, journal_name())),
            Err(e) => Err(e),
        },
{
    let dir = git_common_dir(exec)?;
    Ok(join_path(dir.as_str(), "gw-sync.json"))
}

/// The path of the lifecycle lock file in the common git directory.
pub fn lifecycle_lock_path<E: CommandExecutor>(exec: &mut E) -> (r: Result<String, GwError>)
    ensures
        ran_git(old(exec).history(), final(exec).history(), seq!["rev-parse"@, "--git-common-dir"@]),
        string_result_view(r) == match output_view(final(exec).history().last().result) {
            Ok(dir) => Ok(join_path_view(dir, lock_name())),
            Err(e) => Err(e),
        },
{
    let dir = git_common_dir(exec)?;
    Ok(join_path(dir.as_str(), "gw-lifecycle.lock"))
}

/// The refusal while an unfinished sync protects the stack.
pub open spec fn pending_sync_error(path: Seq<char>) -> GwErrorView {
    GwErrorView::Other(
        "An unfinished gw sync protects this stack. Rerun gw sync in its original worktree first (journal: "@
            + path + ")."@,
    )
}

/// A failed or interrupted sync must finish before another stack mutation:
/// refuse exactly when the journal at `path` exists.
pub fn require_no_pending_sync(journal_exists: bool, path: &str) -> (r: Result<(), GwError>)
    ensures
        journal_exists ==> unit_view(r) == Err::<(), GwErrorView>(pending_sync_error(path@)),
        !journal_exists ==> r is Ok,
{
    if journal_exists {
        return Err(GwError::Other(
            cat3(
                "An unfinished gw sync protects this stack. Rerun gw sync in its original worktree first (journal: ",
                path,
                ").",
            ),
        ));
    }
    Ok(())
}

/// The refusal when another process holds the lifecycle lock.
pub fn lock_busy_error(reason: &str) -> (r: GwError)
    ensures
        r@ == GwErrorView::Other(
            "Another gw stack mutation is running, or its lock is unavailable ("@ + reason@
                + "). Retry after it finishes."@,
        ),
{
    GwError::Other(
        cat3(
            "Another gw stack mutation is running, or its lock is unavailable (",
            reason,
            "). Retry after it finishes.",
        ),
    )
}

} // verus!
