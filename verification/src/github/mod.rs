//! Pull request information from the GitHub command-line client.

pub mod client;
pub mod fixtures;
pub mod json;
pub mod mock;
pub mod parser;
pub mod types;

pub use client::{CommandExecutor, CommandOutput, CommandRunner, GitHubClient, RecordingExecutor};
pub use mock::{CommandCall, MockCommandExecutor, MockScenarioBuilder};
pub use parser::parse_pr_json;
pub use types::{MergeMethod, PrInfo, PrState, RawPrData};
