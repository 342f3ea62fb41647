//! `gw undo`: undo the last commit, keeping its changes staged.

use vstd::prelude::*;

use crate::state::sync::SyncState;

verus! {

/// Whether the commit to undo may already be on the remote: the branch is
/// synced with or behind its upstream, so the upstream has every local commit.
pub fn may_be_pushed(state: &SyncState) -> (r: bool)
    ensures
        r == (*state is Synced || *state is Behind),
{
    match state {
        SyncState::Synced => true,
        SyncState::Behind { .. } => true,
        _ => false,
    }
}

} // verus!
