//! The decisions of the workflow commands.

pub mod sync;
pub mod helpers;
pub mod cleanup;
pub mod await_pr;
pub mod open;
pub mod worktree_pool;
pub mod new;
pub mod home;
pub mod pause;
pub mod undo;
pub mod status;
pub mod dependents;
