use git_staged::{
    commit, commit_failure, run_pre_commit_hook, CommitProgress, CommitWorkflow, GitCommand,
    GitError, Outcome, HOOK_PASSED,
};

fn exited(success: bool, stdout: &[u8], stderr: &[u8]) -> Outcome {
    Outcome::Exited { success, stdout: stdout.to_vec(), stderr: stderr.to_vec() }
}

#[test]
fn a_hook_that_exits_with_success_passes() {
    assert_eq!(run_pre_commit_hook(&exited(true, b"", b"")), Ok(()));
    assert_eq!(run_pre_commit_hook(&exited(true, b"noise", b"more")), Ok(()));
}

#[test]
fn a_hook_that_exits_with_failure_fails() {
    assert_eq!(run_pre_commit_hook(&exited(false, b"", b"")), Err(GitError::HookFailure));
    assert_eq!(run_pre_commit_hook(&exited(false, b"out", b"err")), Err(GitError::HookFailure));
}

#[test]
fn a_hook_that_cannot_be_run_fails() {
    assert_eq!(run_pre_commit_hook(&Outcome::Unspawned), Err(GitError::Subprocess));
}

#[test]
fn the_confirmation_of_a_passed_hook() {
    assert_eq!(HOOK_PASSED, "pre-commit hook OK");
}

#[test]
fn a_commit_that_exits_with_success_is_made() {
    assert_eq!(commit(&exited(true, b"[main 1234567] message\n", b"")), Ok(()));
    assert_eq!(commit(&exited(true, b"", b"hint\n")), Ok(()));
}

#[test]
fn a_failed_commit_reports_what_git_wrote() {
    let verdict = commit(&exited(false, b"warn\n", b"err\n"));
    assert_eq!(verdict, Err(GitError::Commit("warn\nerr\n".to_string())));
    assert_eq!(verdict.unwrap_err().message(), "git commit failed: warn\nerr\n");
}

#[test]
fn a_failed_commit_that_wrote_nothing() {
    let verdict = commit(&exited(false, b"", b""));
    assert_eq!(verdict, Err(GitError::Commit(String::new())));
    assert_eq!(verdict.unwrap_err().message(), "git commit failed: ");
}

#[test]
fn a_failed_commit_joins_output_and_error_without_a_separator() {
    let verdict = commit(&exited(false, b"nothing to commit", b"fatal: stop"));
    assert_eq!(verdict, Err(GitError::Commit("nothing to commitfatal: stop".to_string())));
}

#[test]
fn a_failed_commit_replaces_what_is_not_text() {
    let verdict = commit(&exited(false, &[b'a', 0xff, b'b'], &[0xc3, 0x28]));
    assert_eq!(verdict, Err(GitError::Commit("a\u{fffd}b\u{fffd}(".to_string())));
}

#[test]
fn a_failed_commit_keeps_text_beyond_ascii() {
    let verdict = commit(&exited(false, "caf\u{e9}\n".as_bytes(), "\u{2717} no\n".as_bytes()));
    assert_eq!(verdict, Err(GitError::Commit("caf\u{e9}\n\u{2717} no\n".to_string())));
}

#[test]
fn a_commit_that_cannot_be_run_fails() {
    assert_eq!(commit(&Outcome::Unspawned), Err(GitError::Subprocess));
}

#[test]
fn commit_failure_joins_its_two_texts() {
    assert_eq!(commit_failure("warn\n", "err\n"), GitError::Commit("warn\nerr\n".to_string()));
    assert_eq!(commit_failure("", "only"), GitError::Commit("only".to_string()));
    assert_eq!(commit_failure("only", ""), GitError::Commit("only".to_string()));
}

#[test]
fn the_workflow_runs_the_hook_and_then_the_commit() {
    let workflow = CommitWorkflow::new("fix: typo".to_string());
    assert_eq!(workflow.command(), GitCommand::Hook);
    let workflow = match workflow.resume(&exited(true, b"", b"")) {
        CommitProgress::Pending(next) => next,
        CommitProgress::Finished(verdict) => panic!("ended early with {:?}", verdict),
    };
    assert_eq!(workflow, CommitWorkflow::Committing { message: "fix: typo".to_string() });
    assert_eq!(workflow.command(), GitCommand::Commit("fix: typo".to_string()));
    assert_eq!(workflow.resume(&exited(true, b"done\n", b"")), CommitProgress::Finished(Ok(())));
}

#[test]
fn the_workflow_ends_where_the_hook_fails() {
    let workflow = CommitWorkflow::new("message".to_string());
    assert_eq!(
        workflow.resume(&exited(false, b"", b"")),
        CommitProgress::Finished(Err(GitError::HookFailure))
    );
    let workflow = CommitWorkflow::new("message".to_string());
    assert_eq!(
        workflow.resume(&Outcome::Unspawned),
        CommitProgress::Finished(Err(GitError::Subprocess))
    );
}

#[test]
fn the_workflow_ends_where_the_commit_fails() {
    let workflow = CommitWorkflow::Committing { message: "message".to_string() };
    assert_eq!(
        workflow.resume(&exited(false, b"warn\n", b"err\n")),
        CommitProgress::Finished(Err(GitError::Commit("warn\nerr\n".to_string())))
    );
    let workflow = CommitWorkflow::Committing { message: "message".to_string() };
    assert_eq!(
        workflow.resume(&Outcome::Unspawned),
        CommitProgress::Finished(Err(GitError::Subprocess))
    );
}
