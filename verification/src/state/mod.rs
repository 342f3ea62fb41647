//! The state of the repository and the branch-protection typestate.

pub mod next_action;
pub mod repo;
pub mod sync;
pub mod working_dir;


pub use repo::RepoType;
pub use sync::SyncState;
pub use working_dir::WorkingDirState;

pub mod branch;
pub use next_action::{DetectContext, NextAction};

pub use branch::{classify_branch, Branch, BranchClassification, Deletable, Protected};
