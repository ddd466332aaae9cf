//! Decisions of a helper that commits what is staged in a git working tree:
//! which queries to put to git, what report of the staged changes their
//! answers make, and what the answers of the hook run and of the commit mean.
//! Nothing here starts a process: the caller runs git and hands back what
//! came of it.

pub mod collector;
pub mod command;
pub mod diff;
pub mod entry;
pub mod error;
pub mod queries;
pub mod report;
pub mod sections;
pub mod text;
pub mod workflow;

pub use collector::{DiffCollector, Progress};
pub use command::{GitCommand, Outcome};
pub use diff::collect_diff;
pub use entry::FileChangeEntry;
pub use error::GitError;
pub use report::MAX_PATCH_LINES;
pub use workflow::{
    commit, commit_failure, run_pre_commit_hook, CommitProgress, CommitWorkflow, HOOK_PASSED,
};
