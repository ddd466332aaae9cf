use git_staged::{GitCommand, GitError, Outcome};

#[test]
fn the_program_is_git() {
    assert_eq!(GitCommand::program(), "git");
}

#[test]
fn the_status_query_lists_staged_names_with_status() {
    assert_eq!(GitCommand::Status.args(), vec!["diff", "--cached", "--name-status"]);
}

#[test]
fn the_diff_query_names_the_path() {
    assert_eq!(
        GitCommand::Diff("src/a b.rs".to_string()).args(),
        vec!["diff", "--cached", "src/a b.rs"]
    );
    assert_eq!(GitCommand::Diff(String::new()).args(), vec!["diff", "--cached", ""]);
}

#[test]
fn the_hook_run_tolerates_a_missing_hook() {
    assert_eq!(GitCommand::Hook.args(), vec!["hook", "run", "pre-commit", "--ignore-missing"]);
}

#[test]
fn the_commit_skips_the_hooks() {
    assert_eq!(
        GitCommand::Commit("feat: add x\n\nbody".to_string()).args(),
        vec!["commit", "-m", "feat: add x\n\nbody", "--no-verify"]
    );
}

#[test]
fn the_commit_skips_the_hooks_once_whatever_the_message() {
    let args = GitCommand::Commit("--no-verify".to_string()).args();
    assert_eq!(args, vec!["commit", "-m", "--no-verify", "--no-verify"]);
    assert_eq!(args.len(), 4);
    assert_eq!(GitCommand::Commit(String::new()).args(), vec!["commit", "-m", "", "--no-verify"]);
}

#[test]
fn only_the_hook_run_keeps_its_streams() {
    assert!(GitCommand::Status.captures_output());
    assert!(GitCommand::Diff("a".to_string()).captures_output());
    assert!(GitCommand::Commit("m".to_string()).captures_output());
    assert!(!GitCommand::Hook.captures_output());
}

#[test]
fn the_text_of_an_outcome_is_its_decoded_output() {
    let outcome = Outcome::Exited {
        success: true,
        stdout: vec![0x68, 0xc3, 0xa9, 0x0a],
        stderr: vec![0xff],
    };
    assert_eq!(outcome.text(), Ok("h\u{e9}\n"));
    let empty = Outcome::Exited { success: false, stdout: Vec::new(), stderr: Vec::new() };
    assert_eq!(empty.text(), Ok(""));
}

#[test]
fn an_outcome_without_text() {
    assert_eq!(Outcome::Unspawned.text(), Err(GitError::Subprocess));
    let truncated = Outcome::Exited { success: true, stdout: vec![0xe4, 0xbd], stderr: Vec::new() };
    assert_eq!(truncated.text(), Err(GitError::Encoding));
    let surrogate =
        Outcome::Exited { success: true, stdout: vec![0xed, 0xa0, 0x80], stderr: Vec::new() };
    assert_eq!(surrogate.text(), Err(GitError::Encoding));
    let overlong = Outcome::Exited { success: true, stdout: vec![0xc0, 0xaf], stderr: Vec::new() };
    assert_eq!(overlong.text(), Err(GitError::Encoding));
}
