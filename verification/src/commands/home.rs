//! Returning to the home branch, shared by `gw home`, `gw abandon` and
//! `gw cleanup`.

use vstd::prelude::*;

use crate::error::{GwError, GwErrorView};
use crate::git::mutation::checkout_view;
use crate::git::query::show_ref_args;
use crate::git::{extends, git_call_at};
use crate::github::client::{ran_ok, CallRecord, CommandExecutor};
use crate::commands::helpers::{
    fast_forward_calls, fast_forward_end, fast_forward_home_ref, fast_forward_result, lemma_fast_forward_frame, FastForward,
};
use crate::text::str_eq;

verus! {

/// How the home branch was reached.
#[derive(Debug, Clone, Copy, PartialEq, Eq, Structural)]
pub enum HomeSwitch {
    /// Already on it.
    AlreadyHome,
    /// It existed and was checked out.
    Switched,
    /// It did not exist and was created at the default remote branch.
    Created,
}

/// The view of a switch result.
pub open spec fn switch_view(r: Result<HomeSwitch, GwError>) -> Result<HomeSwitch, GwErrorView> {
    match r {
        Ok(s) => Ok(s),
        Err(e) => Err(e@),
    }
}

/// What switching to `home` (its runs from record `n` of `h` on) did: the
/// branch is looked up, then checked out, or created at `remote` when it
/// does not exist.
pub open spec fn home_switched(
    h: Seq<CallRecord>,
    n: int,
    home: Seq<char>,
    remote: Seq<char>,
    r: Result<HomeSwitch, GwErrorView>,
) -> bool {
    &&& git_call_at(h, n, show_ref_args(home))
    &&& if ran_ok(h[n].result) {
        &&& git_call_at(h, n + 1, seq!["checkout"@, home, "--quiet"@])
        &&& r == match checkout_view(home, h[n + 1].result) {
            Ok(()) => Ok(HomeSwitch::Switched),
            Err(e) => Err(e),
        }
    } else {
        &&& git_call_at(h, n + 1, seq!["checkout"@, "-b"@, home, remote, "--quiet"@])
        &&& r == match checkout_view(home, h[n + 1].result) {
            Ok(()) => Ok(HomeSwitch::Created),
            Err(e) => Err(e),
        }
    }
}

/// Go to the home branch: nothing when already there; check it out when it
/// exists; otherwise create it at `default_remote`.
pub fn switch_to_home<E: CommandExecutor>(exec: &mut E, current: &str, home_branch: &str, default_remote: &str) -> (r:
    Result<HomeSwitch, GwError>)
    ensures
        ({
            let h0 = old(exec).history();
            let h = final(exec).history();
            let n = h0.len() as int;
            if current@ == home_branch@ {
                h == h0 && r matches Ok(HomeSwitch::AlreadyHome)
            } else {
                &&& extends(h0, h)
                &&& h.len() == n + 2
                &&& home_switched(h, n, home_branch@, default_remote@, switch_view(r))
            }
        }),
{
    if str_eq(current, home_branch) {
        return Ok(HomeSwitch::AlreadyHome);
    }
    let ghost h0 = exec.history();
    let ghost n = h0.len() as int;
    let exists = crate::git::query::branch_exists(exec, home_branch);
    let ghost h1 = exec.history();
    let res = if exists {
        match crate::git::mutation::checkout(exec, home_branch) {
            Ok(()) => Ok(HomeSwitch::Switched),
            Err(e) => Err(e),
        }
    } else {
        match crate::git::mutation::checkout_new_branch(exec, home_branch, default_remote) {
            Ok(()) => Ok(HomeSwitch::Created),
            Err(e) => Err(e),
        }
    };
    proof {
        let h2 = exec.history();
        assert(h2.drop_last() == h1);
        assert(h2[n] == h1[n]);
        assert(h2.take(n) =~= h0);
    }
    res
}

/// Go home the way `gw home` does: off the home branch, first move the
/// home branch's ref forward to `default_remote` when that is a pure
/// fast-forward, then switch to it; so the working tree moves only once.
pub fn go_home<E: CommandExecutor>(exec: &mut E, current: &str, home_branch: &str, default_remote: &str) -> (r: (
    FastForward,
    Result<HomeSwitch, GwError>,
))
    ensures
        ({
            let h0 = old(exec).history();
            let h = final(exec).history();
            let n = h0.len() as int;
            if current@ == home_branch@ {
                h == h0 && r.0 is Skipped && r.1 matches Ok(HomeSwitch::AlreadyHome)
            } else {
                let m = fast_forward_end(h, n);
                &&& extends(h0, h)
                &&& fast_forward_calls(h, n, home_branch@, default_remote@)
                &&& r.0@ == fast_forward_result(h, n)
                &&& h.len() == m + 2
                &&& home_switched(h, m, home_branch@, default_remote@, switch_view(r.1))
            }
        }),
{
    if str_eq(current, home_branch) {
        return (FastForward::Skipped, Ok(HomeSwitch::AlreadyHome));
    }
    let ghost h0 = exec.history();
    let ghost n = h0.len() as int;
    let moved = fast_forward_home_ref(exec, home_branch, default_remote);
    let ghost h1 = exec.history();
    let switched = switch_to_home(exec, current, home_branch, default_remote);
    proof {
        let h = exec.history();
        crate::git::lemma_extends_trans(h0, h1, h);
        lemma_fast_forward_frame(h1, h, n, home_branch@, default_remote@);
    }
    (moved, switched)
}

} // verus!
