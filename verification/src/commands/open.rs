//! `gw open`: open the current branch's pull request in the browser.
//!
//! The URL is handed to one program as its only argument. The program is
//! `$GW_OPEN_URL_CMD`, else `$OPEN_URL_CMD`, else the system's default
//! (`open` on macOS, `xdg-open` elsewhere); blank values are skipped.

use vstd::prelude::*;

use crate::error::{GwError, GwErrorView};
use crate::git::extends;
use crate::github::client::{lookup_at, lookup_calls_at, lookup_runs, ran_ok, CommandExecutor, GitHubClient};
use crate::github::types::PrInfo;
use crate::text::{cat3, str_eq};

verus! {

/// The view of an optional text argument.
pub open spec fn opt_arg(o: Option<&str>) -> Option<Seq<char>> {
    match o {
        Some(s) => Some(s@),
        None => None,
    }
}

/// The program that opens a URL: the first non-blank of the two settings,
/// else the system's default.
pub open spec fn open_program_view(gw_cmd: Option<Seq<char>>, open_cmd: Option<Seq<char>>, os_default: Seq<char>) -> Seq<char> {
    if gw_cmd is Some && gw_cmd->0.len() > 0 {
        gw_cmd->0
    } else if open_cmd is Some && open_cmd->0.len() > 0 {
        open_cmd->0
    } else {
        os_default
    }
}

/// Choose the program that opens a URL: `GW_OPEN_URL_CMD` over
/// `OPEN_URL_CMD` over the system's default; blank settings fall through.
pub fn resolve_open_program(gw_cmd: Option<&str>, open_cmd: Option<&str>, os_default: &str) -> (r: String)
    ensures
        r@ == open_program_view(opt_arg(gw_cmd), opt_arg(open_cmd), os_default@),
{
    if let Some(g) = gw_cmd {
        if !g.is_empty() {
            return g.to_string();
        }
    }
    if let Some(o) = open_cmd {
        if !o.is_empty() {
            return o.to_string();
        }
    }
    os_default.to_string()
}

/// The system's default program for opening a URL: `open` on macOS,
/// `xdg-open` elsewhere.
pub fn default_open_program(macos: bool) -> (r: &'static str)
    ensures
        r@ == if macos {
            "open"@
        } else {
            "xdg-open"@
        },
{
    if macos {
        "open"
    } else {
        "xdg-open"
    }
}

/// The failure when the program that opens URLs cannot be run.
pub fn open_launch_error(program: &str, reason: &str) -> (r: GwError)
    ensures
        r@ == GwErrorView::Other("Failed to run open command '"@ + program@ + "': "@ + reason@),
{
    let head = cat3("Failed to run open command '", program, "': ");
    GwError::Other(crate::text::cat(head.as_str(), reason))
}

/// The failure when the program that opens URLs reports an error.
pub fn open_status_error(program: &str) -> (r: GwError)
    ensures
        r@ == GwErrorView::Other("Open command '"@ + program@ + "' exited with a non-zero status"@),
{
    GwError::Other(cat3("Open command '", program, "' exited with a non-zero status"))
}

/// What there is to open.
#[derive(Debug)]
pub enum OpenTarget {
    /// On the home branch there is no pull request to open.
    OnHome,
    /// The branch has no pull request yet.
    NoPr,
    /// Open this pull request.
    Pr(PrInfo),
}

/// Find the pull request to open for the current branch: none on the home
/// branch; `gh` is required otherwise.
pub fn find_pr_to_open<E: CommandExecutor>(client: &mut GitHubClient<E>, current: &str, home_branch: &str) -> (r:
    Result<OpenTarget, GwError>)
    ensures
        ({
            let h0 = old(client).history();
            let h = final(client).history();
            let n = h0.len() as int;
            if current@ == home_branch@ {
                h == h0 && r matches Ok(OpenTarget::OnHome)
            } else {
                &&& extends(h0, h)
                &&& crate::commands::sync::gh_version_at(h, n)
                &&& if !ran_ok(h[n].result) {
                    h.len() == n + 1 && (r matches Err(e) && e@
                        == crate::commands::await_pr::gh_missing_error())
                } else {
                    &&& lookup_calls_at(h, n + 1, current@)
                    &&& h.len() == n + 1 + lookup_runs(h, n + 1)
                    &&& match lookup_at(h, n + 1) {
                        Err(e) => r matches Err(x) && x@ == e,
                        Ok(None) => r matches Ok(OpenTarget::NoPr),
                        Ok(Some(p)) => r matches Ok(OpenTarget::Pr(q)) && q@ == p,
                    }
                }
            }
        }),
{
    if str_eq(current, home_branch) {
        return Ok(OpenTarget::OnHome);
    }
    let ghost h0 = client.history();
    let ghost n = h0.len() as int;
    if !client.is_available() {
        assert(client.history().take(n) =~= h0);
        return Err(
            GwError::Other("GitHub CLI (gh) is not available. Install it from https://cli.github.com/".to_string()),
        );
    }
    let ghost h1 = client.history();
    let look = client.get_pr_for_branch(current);
    proof {
        let h2 = client.history();
        crate::git::lemma_extends(h1, h2);
        assert(h2[n] == h1[n]);
        assert(h2.take(n) =~= h0) by {
            assert(h2.take(h1.len() as int) == h1);
        }
    }
    match look {
        Err(e) => Err(e),
        Ok(None) => Ok(OpenTarget::NoPr),
        Ok(Some(pr)) => Ok(OpenTarget::Pr(pr)),
    }
}

} // verus!
