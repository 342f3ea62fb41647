//! git-workflow: worktree-aware git workflow guardrails.
//!
//! The decisions that the command-line tool makes (which action comes next,
//! which branch may be deleted, how a stacked branch is restacked, how the
//! worktree pool is managed) are stated here with contracts and proved.

pub mod text;
pub mod error;

pub use error::{GwError, Result};
pub mod cli;
pub mod commands;
pub mod git;
pub mod github;
pub mod state;
pub mod output;
pub mod pool;
