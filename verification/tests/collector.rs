use git_staged::{DiffCollector, GitCommand, GitError, Outcome, Progress};

fn wrote(stdout: &str) -> Outcome {
    Outcome::Exited { success: true, stdout: stdout.as_bytes().to_vec(), stderr: Vec::new() }
}

fn pending(progress: Progress) -> DiffCollector {
    match progress {
        Progress::Pending(collector) => collector,
        Progress::Finished(result) => panic!("ended early with {:?}", result),
    }
}

fn finished(progress: Progress) -> Result<String, GitError> {
    match progress {
        Progress::Finished(result) => result,
        Progress::Pending(collector) => panic!("still asks for {:?}", collector.command()),
    }
}

#[test]
fn a_collector_asks_for_the_listing_first() {
    assert_eq!(DiffCollector::new().command(), GitCommand::Status);
}

#[test]
fn a_collector_asks_for_each_changed_file_in_turn() {
    let collector = DiffCollector::new();
    let collector = pending(collector.resume(&wrote("A\tfoo.txt\nD\tbar.txt\nM\tbaz.txt\n")));
    assert_eq!(collector.command(), GitCommand::Diff("foo.txt".to_string()));
    let collector = pending(collector.resume(&wrote("+foo\n")));
    assert_eq!(collector.command(), GitCommand::Diff("baz.txt".to_string()));
    let report = finished(collector.resume(&wrote("+baz\n")));
    assert_eq!(
        report,
        Ok("=== foo.txt ===\n+foo\n=== bar.txt ===\ndeleted file: bar.txt\n=== baz.txt ===\n+baz\n"
            .to_string())
    );
}

#[test]
fn a_collector_asks_nothing_for_deleted_files() {
    let progress = DiffCollector::new().resume(&wrote("D\ta\nD\tb\n"));
    assert_eq!(
        finished(progress),
        Ok("=== a ===\ndeleted file: a\n=== b ===\ndeleted file: b\n".to_string())
    );
}

#[test]
fn a_collector_ends_at_once_on_an_empty_listing() {
    assert_eq!(finished(DiffCollector::new().resume(&wrote(""))), Ok(String::new()));
}

#[test]
fn a_collector_ends_on_a_failed_listing() {
    assert_eq!(
        finished(DiffCollector::new().resume(&Outcome::Unspawned)),
        Err(GitError::Subprocess)
    );
    let garbled = Outcome::Exited { success: true, stdout: vec![0x80], stderr: Vec::new() };
    assert_eq!(finished(DiffCollector::new().resume(&garbled)), Err(GitError::Encoding));
}

#[test]
fn a_collector_ends_on_a_failed_diff() {
    let collector = pending(DiffCollector::new().resume(&wrote("M\ta\nM\tb\n")));
    assert_eq!(finished(collector.resume(&Outcome::Unspawned)), Err(GitError::Subprocess));
}

#[test]
fn a_collector_stops_at_a_line_without_a_tab() {
    let collector = pending(DiffCollector::new().resume(&wrote("M\ta\nbroken\nM\tc\n")));
    assert_eq!(collector.command(), GitCommand::Diff("a".to_string()));
    assert_eq!(finished(collector.resume(&wrote("+a\n"))), Err(GitError::Parse));
}

#[test]
fn a_collector_reads_a_diff_whatever_git_reported() {
    let collector = pending(DiffCollector::new().resume(&wrote("M\ta\n")));
    let outcome =
        Outcome::Exited { success: false, stdout: b"+a\n".to_vec(), stderr: b"oops".to_vec() };
    assert_eq!(finished(collector.resume(&outcome)), Ok("=== a ===\n+a\n".to_string()));
}
