//! Committing what is staged: the pre-commit hook first, then the commit
//! itself, which does not run the hooks again.

use crate::command::{CommandView, GitCommand, Outcome, OutcomeView};
use crate::error::{ErrorView, GitError};
use crate::text::{decode_lossy, lossy_text};
use vstd::prelude::*;
use vstd::string::StringExecFns;

verus! {

/// What the user is told once the pre-commit hook has passed.
pub const HOOK_PASSED: &'static str = "pre-commit hook OK";

/// What the outcome of the hook run means. The hook passed where git
/// reported success, which it also does where no hook is configured.
pub open spec fn hook_verdict(outcome: OutcomeView) -> Result<(), ErrorView> {
    match outcome {
        OutcomeView::Unspawned => Err(ErrorView::Subprocess),
        OutcomeView::Exited { success, .. } => if success {
            Ok(())
        } else {
            Err(ErrorView::HookFailure)
        },
    }
}

/// What the outcome of the commit means. A commit that failed is reported
/// with what git wrote: its standard output, then its standard error, with
/// nothing between them.
pub open spec fn commit_verdict(outcome: OutcomeView) -> Result<(), ErrorView> {
    match outcome {
        OutcomeView::Unspawned => Err(ErrorView::Subprocess),
        OutcomeView::Exited { success, stdout, stderr } => if success {
            Ok(())
        } else {
            Err(ErrorView::Commit(lossy_text(stdout) + lossy_text(stderr)))
        },
    }
}

/// A verdict as a mathematical value.
pub open spec fn verdict_view(verdict: Result<(), GitError>) -> Result<(), ErrorView> {
    match verdict {
        Ok(()) => Ok(()),
        Err(failure) => Err(failure@),
    }
}

/// Judges the outcome of `GitCommand::Hook`.
pub fn run_pre_commit_hook(outcome: &Outcome) -> (verdict: Result<(), GitError>)
    ensures
        verdict_view(verdict) == hook_verdict(outcome@),
{
    match outcome {
        Outcome::Unspawned => Err(GitError::Subprocess),
        Outcome::Exited { success, .. } => if *success {
            Ok(())
        } else {
            Err(GitError::HookFailure)
        },
    }
}

/// The failure of a commit that wrote `stdout` and `stderr`.
pub fn commit_failure(stdout: &str, stderr: &str) -> (failure: GitError)
    ensures
        failure@ == ErrorView::Commit(stdout@ + stderr@),
{
    let mut output = String::from_str(stdout);
    output.append(stderr);
    GitError::Commit(output)
}

/// Judges the outcome of a `GitCommand::Commit`.
pub fn commit(outcome: &Outcome) -> (verdict: Result<(), GitError>)
    ensures
        verdict_view(verdict) == commit_verdict(outcome@),
{
    match outcome {
        Outcome::Unspawned => Err(GitError::Subprocess),
        Outcome::Exited { success, stdout, stderr } => if *success {
            Ok(())
        } else {
            let written = decode_lossy(stdout.as_slice());
            let complained = decode_lossy(stderr.as_slice());
            Err(commit_failure(written.as_str(), complained.as_str()))
        },
    }
}

/// The workflow while git runs for it.
#[derive(Debug, PartialEq, Eq)]
pub enum CommitWorkflow {
    /// The pre-commit hook runs. The commit under `message` waits for it.
    HookRunning { message: String },
    /// The hook has passed, and the commit under `message` runs.
    Committing { message: String },
}

/// Where the workflow stands after an outcome.
#[derive(Debug, PartialEq, Eq)]
pub enum CommitProgress {
    /// Another command has to be run: the one that the workflow names.
    Pending(CommitWorkflow),
    /// The workflow ended: the commit was made, or the hook or the commit
    /// failed. Nothing is tried again.
    Finished(Result<(), GitError>),
}

/// A `CommitWorkflow` as a mathematical value.
pub enum WorkflowView {
    HookRunning { message: Seq<char> },
    Committing { message: Seq<char> },
}

/// A `CommitProgress` as a mathematical value.
pub enum CommitProgressView {
    Pending(WorkflowView),
    Finished(Result<(), ErrorView>),
}

impl WorkflowView {
    /// The command that the workflow waits for.
    pub open spec fn command(self) -> CommandView {
        match self {
            WorkflowView::HookRunning { .. } => CommandView::Hook,
            WorkflowView::Committing { message } => CommandView::Commit(message),
        }
    }

    /// Where the workflow stands once `outcome` has come back. A hook that
    /// passed lets the commit run; everything else ends the workflow.
    pub open spec fn resume(self, outcome: OutcomeView) -> CommitProgressView {
        match self {
            WorkflowView::HookRunning { message } => match hook_verdict(outcome) {
                Ok(()) => CommitProgressView::Pending(WorkflowView::Committing { message }),
                Err(failure) => CommitProgressView::Finished(Err(failure)),
            },
            WorkflowView::Committing { .. } => CommitProgressView::Finished(
                commit_verdict(outcome),
            ),
        }
    }
}

impl View for CommitWorkflow {
    type V = WorkflowView;

    open spec fn view(&self) -> WorkflowView {
        match self {
            CommitWorkflow::HookRunning { message } => WorkflowView::HookRunning {
                message: message@,
            },
            CommitWorkflow::Committing { message } => WorkflowView::Committing {
                message: message@,
            },
        }
    }
}

impl View for CommitProgress {
    type V = CommitProgressView;

    open spec fn view(&self) -> CommitProgressView {
        match self {
            CommitProgress::Pending(workflow) => CommitProgressView::Pending(workflow@),
            CommitProgress::Finished(verdict) => CommitProgressView::Finished(
                verdict_view(*verdict),
            ),
        }
    }
}

impl CommitWorkflow {
    /// The workflow at its start, for a commit under `message`: the hook is
    /// the first thing to run.
    pub fn new(message: String) -> (workflow: CommitWorkflow)
        ensures
            workflow@ == (WorkflowView::HookRunning { message: message@ }),
    {
        CommitWorkflow::HookRunning { message }
    }

    /// The command that the workflow waits for.
    pub fn command(&self) -> (command: GitCommand)
        ensures
            command@ == self@.command(),
    {
        match self {
            CommitWorkflow::HookRunning { .. } => GitCommand::Hook,
            CommitWorkflow::Committing { message } => GitCommand::Commit(message.clone()),
        }
    }

    /// Takes the outcome of the command that the workflow waited for.
    pub fn resume(self, outcome: &Outcome) -> (progress: CommitProgress)
        ensures
            progress@ == self@.resume(outcome@),
    {
        match self {
            CommitWorkflow::HookRunning { message } => match run_pre_commit_hook(outcome) {
                Ok(()) => CommitProgress::Pending(CommitWorkflow::Committing { message }),
                Err(failure) => CommitProgress::Finished(Err(failure)),
            },
            CommitWorkflow::Committing { .. } => CommitProgress::Finished(commit(outcome)),
        }
    }
}

/// The commit runs only after the hook has passed, under the message that
/// the workflow began with and without running the hooks again; and
/// whatever comes of the commit ends the workflow.
pub proof fn lemma_commit_follows_hook(
    message: Seq<char>,
    hook: OutcomeView,
    commit: OutcomeView,
)
    ensures
        (WorkflowView::HookRunning { message }).command().args() == seq![
            "hook"@,
            "run"@,
            "pre-commit"@,
            "--ignore-missing"@,
        ],
        match (WorkflowView::HookRunning { message }).resume(hook) {
            CommitProgressView::Pending(next) => {
                &&& hook_verdict(hook) is Ok
                &&& next.command().args() == seq!["commit"@, "-m"@, message, "--no-verify"@]
                &&& next.resume(commit) == CommitProgressView::Finished(commit_verdict(commit))
            },
            CommitProgressView::Finished(verdict) => {
                &&& hook_verdict(hook) is Err
                &&& verdict == hook_verdict(hook)
            },
        },
{
}

} // verus!
