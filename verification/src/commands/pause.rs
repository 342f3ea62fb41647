//! `gw pause`: park the current work as a WIP commit and go home.

use vstd::prelude::*;

use crate::text::cat;

verus! {

/// The WIP commit's message: `WIP: <message>`, or `WIP: paused`.
pub fn wip_message(message: Option<&str>) -> (r: String)
    ensures
        r@ == match message {
            Some(m) => "WIP: "@ + m@,
            None => "WIP: paused"@,
        },
{
    match message {
        Some(m) => cat("WIP: ", m),
        None => "WIP: paused".to_string(),
    }
}

/// The comment left on the branch's pull request when pausing with a message.
pub fn pause_comment(message: &str) -> (r: String)
    ensures
        r@ == "⏸️ Paused work on this PR: "@ + message@,
{
    cat("⏸️ Paused work on this PR: ", message)
}

} // verus!
