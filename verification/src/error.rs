//! What can go wrong when git is asked something.

use vstd::prelude::*;
use vstd::string::StringExecFns;

verus! {

/// A failure of one of the operations.
#[derive(Debug, PartialEq, Eq)]
pub enum GitError {
    /// The git executable could not be started.
    Subprocess,
    /// What git wrote is not UTF-8 text.
    Encoding,
    /// A line of the status listing has no tab, and so names no path.
    Parse,
    /// The pre-commit hook exited with a failure.
    HookFailure,
    /// The commit exited with a failure. Holds what it wrote to its
    /// standard output, followed by what it wrote to its standard error.
    Commit(String),
}

/// A `GitError` as a mathematical value.
pub enum ErrorView {
    Subprocess,
    Encoding,
    Parse,
    HookFailure,
    Commit(Seq<char>),
}

impl ErrorView {
    /// The text that describes the failure to a user.
    pub open spec fn message(self) -> Seq<char> {
        match self {
            ErrorView::Subprocess => "failed to run git"@,
            ErrorView::Encoding => "git output is not valid UTF-8"@,
            ErrorView::Parse => "malformed line in the status listing"@,
            ErrorView::HookFailure => "pre-commit hook failed — aborting"@,
            ErrorView::Commit(output) => "git commit failed: "@ + output,
        }
    }
}

impl View for GitError {
    type V = ErrorView;

    open spec fn view(&self) -> ErrorView {
        match self {
            GitError::Subprocess => ErrorView::Subprocess,
            GitError::Encoding => ErrorView::Encoding,
            GitError::Parse => ErrorView::Parse,
            GitError::HookFailure => ErrorView::HookFailure,
            GitError::Commit(output) => ErrorView::Commit(output@),
        }
    }
}

impl GitError {
    /// The text that describes the failure to a user.
    pub fn message(&self) -> (text: String)
        ensures
            text@ == self@.message(),
    {
        match self {
            GitError::Subprocess => String::from_str("failed to run git"),
            GitError::Encoding => String::from_str("git output is not valid UTF-8"),
            GitError::Parse => String::from_str("malformed line in the status listing"),
            GitError::HookFailure => String::from_str("pre-commit hook failed — aborting"),
            GitError::Commit(output) => {
                let mut text = String::from_str("git commit failed: ");
                text.append(output.as_str());
                text
            },
        }
    }
}

} // verus!
