//! The four things that git is asked, and what comes of asking.

use crate::error::{ErrorView, GitError};
use crate::text::{decode, texts};
use vstd::prelude::*;
use vstd::string::StringExecFns;
use vstd::utf8::{decode_utf8, valid_utf8};

verus! {

/// One invocation of git.
#[derive(Debug, PartialEq, Eq)]
pub enum GitCommand {
    /// List the staged files, one per line: a status code, a tab, the path.
    Status,
    /// Print the staged changes of the file at this path.
    Diff(String),
    /// Run the pre-commit hook, if there is one.
    Hook,
    /// Commit what is staged under this message, without running the hooks.
    Commit(String),
}

/// A `GitCommand` as a mathematical value.
pub enum CommandView {
    Status,
    Diff(Seq<char>),
    Hook,
    Commit(Seq<char>),
}

impl CommandView {
    /// The arguments that git is started with.
    pub open spec fn args(self) -> Seq<Seq<char>> {
        match self {
            CommandView::Status => seq!["diff"@, "--cached"@, "--name-status"@],
            CommandView::Diff(path) => seq!["diff"@, "--cached"@, path],
            CommandView::Hook => seq!["hook"@, "run"@, "pre-commit"@, "--ignore-missing"@],
            CommandView::Commit(message) => seq!["commit"@, "-m"@, message, "--no-verify"@],
        }
    }

    /// Whether what git writes is to be captured and handed back, rather
    /// than left to reach the user directly.
    pub open spec fn captures_output(self) -> bool {
        !(self is Hook)
    }
}

impl View for GitCommand {
    type V = CommandView;

    open spec fn view(&self) -> CommandView {
        match self {
            GitCommand::Status => CommandView::Status,
            GitCommand::Diff(path) => CommandView::Diff(path@),
            GitCommand::Hook => CommandView::Hook,
            GitCommand::Commit(message) => CommandView::Commit(message@),
        }
    }
}

impl GitCommand {
    /// The name of the executable.
    pub fn program() -> (name: &'static str)
        ensures
            name@ == "git"@,
    {
        "git"
    }

    /// The arguments that git is started with.
    pub fn args(&self) -> (args: Vec<String>)
        ensures
            texts(args@) == self@.args(),
    {
        let mut args: Vec<String> = Vec::new();
        match self {
            GitCommand::Status => {
                args.push(String::from_str("diff"));
                args.push(String::from_str("--cached"));
                args.push(String::from_str("--name-status"));
            },
            GitCommand::Diff(path) => {
                args.push(String::from_str("diff"));
                args.push(String::from_str("--cached"));
                args.push(path.clone());
            },
            GitCommand::Hook => {
                args.push(String::from_str("hook"));
                args.push(String::from_str("run"));
                args.push(String::from_str("pre-commit"));
                args.push(String::from_str("--ignore-missing"));
            },
            GitCommand::Commit(message) => {
                args.push(String::from_str("commit"));
                args.push(String::from_str("-m"));
                args.push(message.clone());
                args.push(String::from_str("--no-verify"));
            },
        }
        assert(texts(args@) =~= self@.args());
        args
    }

    /// Whether what git writes is to be captured and handed back, rather
    /// than left to reach the user directly.
    pub fn captures_output(&self) -> (captured: bool)
        ensures
            captured == self@.captures_output(),
    {
        match self {
            GitCommand::Hook => false,
            _ => true,
        }
    }
}

/// What came of one invocation of git.
#[derive(Debug, PartialEq, Eq)]
pub enum Outcome {
    /// git could not be started.
    Unspawned,
    /// git ran and exited.
    Exited {
        /// Whether it reported success.
        success: bool,
        /// What it wrote to its standard output, if that was captured.
        stdout: Vec<u8>,
        /// What it wrote to its standard error, if that was captured.
        stderr: Vec<u8>,
    },
}

/// An `Outcome` as a mathematical value.
pub enum OutcomeView {
    Unspawned,
    Exited { success: bool, stdout: Seq<u8>, stderr: Seq<u8> },
}

impl OutcomeView {
    /// The text on the standard output of a query. There is none where git
    /// did not start, or where what it wrote is not UTF-8. Whether git
    /// reported success plays no part.
    pub open spec fn text(self) -> Result<Seq<char>, ErrorView> {
        match self {
            OutcomeView::Unspawned => Err(ErrorView::Subprocess),
            OutcomeView::Exited { stdout, .. } => if valid_utf8(stdout) {
                Ok(decode_utf8(stdout))
            } else {
                Err(ErrorView::Encoding)
            },
        }
    }
}

impl View for Outcome {
    type V = OutcomeView;

    open spec fn view(&self) -> OutcomeView {
        match self {
            Outcome::Unspawned => OutcomeView::Unspawned,
            Outcome::Exited { success, stdout, stderr } => OutcomeView::Exited {
                success: *success,
                stdout: stdout@,
                stderr: stderr@,
            },
        }
    }
}

impl Outcome {
    /// The text on the standard output of a query.
    pub fn text(&self) -> (text: Result<&str, GitError>)
        ensures
            text is Ok <==> self@.text() is Ok,
            text is Ok ==> text->Ok_0@ == self@.text()->Ok_0,
            text is Err ==> text->Err_0@ == self@.text()->Err_0,
    {
        match self {
            Outcome::Unspawned => Err(GitError::Subprocess),
            Outcome::Exited { stdout, .. } => match decode(stdout.as_slice()) {
                Some(text) => Ok(text),
                None => Err(GitError::Encoding),
            },
        }
    }
}

} // verus!
