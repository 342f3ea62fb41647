//! The worktree pool: its entries, their states and names.

pub mod detect;
pub mod inventory;


pub use detect::{PoolNextAction, PoolState};
pub use inventory::{Inventory, PoolEntry, WorktreeStatus};
