use git_staged::report::{push_deletion_notice, push_header, push_patch};
use git_staged::MAX_PATCH_LINES;

fn numbered(count: usize) -> String {
    let mut text = String::new();
    for i in 0..count {
        text.push_str(&format!("line {}\n", i));
    }
    text
}

#[test]
fn the_limit_is_one_hundred_lines() {
    assert_eq!(MAX_PATCH_LINES, 100);
}

#[test]
fn header_names_the_path() {
    let mut report = String::from("before\n");
    push_header(&mut report, "src/main.rs");
    assert_eq!(report, "before\n=== src/main.rs ===\n");
}

#[test]
fn header_of_an_empty_path() {
    let mut report = String::new();
    push_header(&mut report, "");
    assert_eq!(report, "===  ===\n");
}

#[test]
fn deletion_notice_names_the_path() {
    let mut report = String::from("=== gone.txt ===\n");
    push_deletion_notice(&mut report, "gone.txt");
    assert_eq!(report, "=== gone.txt ===\ndeleted file: gone.txt\n");
}

#[test]
fn a_short_diff_is_shown_whole() {
    let mut report = String::from("x");
    push_patch(&mut report, "@@ -1 +1 @@\n-a\n+b\n");
    assert_eq!(report, "x@@ -1 +1 @@\n-a\n+b\n");
}

#[test]
fn a_diff_without_a_final_line_feed_gets_one() {
    let mut report = String::new();
    push_patch(&mut report, "-a\n+b");
    assert_eq!(report, "-a\n+b\n");
}

#[test]
fn an_empty_diff_shows_nothing() {
    let mut report = String::from("=== a ===\n");
    push_patch(&mut report, "");
    assert_eq!(report, "=== a ===\n");
}

#[test]
fn carriage_returns_before_line_feeds_are_dropped() {
    let mut report = String::new();
    push_patch(&mut report, "a\r\nb\r\n\r\nc\r");
    assert_eq!(report, "a\nb\n\nc\r\n");
}

#[test]
fn a_diff_of_exactly_the_limit_is_shown_whole() {
    let diff = numbered(100);
    let mut report = String::new();
    push_patch(&mut report, &diff);
    assert_eq!(report, diff);
    assert_eq!(report.lines().count(), 100);
}

#[test]
fn a_diff_one_line_short_of_the_limit_is_shown_whole() {
    let diff = numbered(99);
    let mut report = String::new();
    push_patch(&mut report, &diff);
    assert_eq!(report, diff);
}

#[test]
fn a_longer_diff_is_cut_after_the_limit() {
    let mut report = String::new();
    push_patch(&mut report, &numbered(101));
    assert_eq!(report, numbered(100));
}

#[test]
fn a_much_longer_diff_keeps_its_first_lines_verbatim() {
    let mut report = String::from("head\n");
    push_patch(&mut report, &numbered(1000));
    assert_eq!(report, format!("head\n{}", numbered(100)));
    assert_eq!(report.lines().count(), 101);
    assert!(report.ends_with("line 99\n"));
}
