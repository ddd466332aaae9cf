//! The sections that make up a report of the staged changes.

use crate::entry::EntryView;
use crate::text::{
    at_most, leading_lines, lemma_lines_hold_no_feed, lemma_lines_of_broken, lines_of, texts,
    without_cr,
};
use vstd::prelude::*;
use vstd::string::StringExecFns;

verus! {

/// The number of lines of a file's diff that a report shows at most.
pub const MAX_PATCH_LINES: usize = 100;

/// The line that opens the section of the file at `path`.
pub open spec fn header(path: Seq<char>) -> Seq<char> {
    "=== "@ + path + " ===\n"@
}

/// The line that stands for the changes of a deleted file.
pub open spec fn deletion_notice(path: Seq<char>) -> Seq<char> {
    "deleted file: "@ + path + "\n"@
}

/// The lines one after another, each followed by a line feed.
pub open spec fn terminated(lines: Seq<Seq<char>>) -> Seq<char>
    decreases lines.len(),
{
    if lines.len() == 0 {
        Seq::empty()
    } else {
        lines[0] + seq!['\n'] + terminated(lines.drop_first())
    }
}

/// What a report shows of a file's diff: its first `MAX_PATCH_LINES` lines,
/// each followed by a line feed.
pub open spec fn patch_body(diff: Seq<char>) -> Seq<char> {
    terminated(at_most(lines_of(diff), MAX_PATCH_LINES as int))
}

/// The section of one staged file: its header, then the deletion notice for
/// a deleted file, and for any other file what is shown of `diff`.
pub open spec fn section(entry: EntryView, diff: Seq<char>) -> Seq<char> {
    if entry.is_deleted() {
        header(entry.path) + deletion_notice(entry.path)
    } else {
        header(entry.path) + patch_body(diff)
    }
}

/// One more line at the end adds that line and its line feed.
pub proof fn lemma_terminated_push(lines: Seq<Seq<char>>, line: Seq<char>)
    ensures
        terminated(lines.push(line)) == terminated(lines) + line + seq!['\n'],
    decreases lines.len(),
{
    if lines.len() == 0 {
        assert(lines.push(line).drop_first() =~= lines);
        assert(terminated(lines.push(line)) =~= terminated(lines) + line + seq!['\n']);
    } else {
        lemma_terminated_push(lines.drop_first(), line);
        assert(lines.push(line).drop_first() =~= lines.drop_first().push(line));
        assert(terminated(lines.push(line)) =~= terminated(lines) + line + seq!['\n']);
    }
}

/// Lines that hold no line feed, once each is followed by one, are read
/// back as they were, but for a carriage return at the end of a line.
pub proof fn lemma_lines_of_terminated(lines: Seq<Seq<char>>)
    requires
        forall|i: int, j: int|
            0 <= i < lines.len() && 0 <= j < lines[i].len() ==> lines[i][j] != '\n',
    ensures
        lines_of(terminated(lines)) == Seq::new(lines.len(), |i: int| without_cr(lines[i])),
    decreases lines.len(),
{
    if lines.len() == 0 {
        assert(lines_of(terminated(lines)) =~= Seq::new(
            lines.len(),
            |i: int| without_cr(lines[i]),
        ));
    } else {
        let first = lines[0];
        let others = lines.drop_first();
        let whole = terminated(lines);
        assert forall|j: int| 0 <= j < first.len() implies whole[j] != '\n' by {
            assert(whole[j] == first[j]);
        }
        lemma_lines_of_broken(whole, first.len() as int);
        assert(whole.take(first.len() as int) =~= first);
        assert(whole.skip(first.len() as int + 1) =~= terminated(others));
        assert forall|i: int, j: int|
            0 <= i < others.len() && 0 <= j < others[i].len() implies others[i][j] != '\n' by {
            assert(others[i] == lines[i + 1]);
        }
        lemma_lines_of_terminated(others);
        assert(lines_of(whole) =~= Seq::new(lines.len(), |i: int| without_cr(lines[i])));
    }
}

/// What a report shows of a diff has as many lines as the diff, and no more
/// than `MAX_PATCH_LINES`: all lines of a diff that has no more, and of a
/// longer one its first `MAX_PATCH_LINES`, in order and whole.
pub proof fn lemma_patch_body_bounded(diff: Seq<char>)
    ensures
        lines_of(patch_body(diff)).len() <= MAX_PATCH_LINES,
        lines_of(diff).len() <= MAX_PATCH_LINES ==> patch_body(diff) == terminated(lines_of(diff))
            && lines_of(patch_body(diff)).len() == lines_of(diff).len(),
        lines_of(diff).len() > MAX_PATCH_LINES ==> patch_body(diff) == terminated(
            lines_of(diff).take(MAX_PATCH_LINES as int),
        ) && lines_of(patch_body(diff)).len() == MAX_PATCH_LINES,
{
    let shown = at_most(lines_of(diff), MAX_PATCH_LINES as int);
    lemma_lines_hold_no_feed(diff);
    assert forall|i: int, j: int|
        0 <= i < shown.len() && 0 <= j < shown[i].len() implies shown[i][j] != '\n' by {
        assert(shown[i] == lines_of(diff)[i]);
    }
    lemma_lines_of_terminated(shown);
}

/// The section of a deleted file is its header and the deletion notice,
/// whatever a diff of it would hold.
pub proof fn lemma_deleted_section(entry: EntryView, diff: Seq<char>)
    requires
        entry.is_deleted(),
    ensures
        section(entry, diff) == "=== "@ + entry.path + " ===\n"@ + "deleted file: "@ + entry.path
            + "\n"@,
{
    assert(section(entry, diff) =~= "=== "@ + entry.path + " ===\n"@ + "deleted file: "@
        + entry.path + "\n"@);
}

/// Appends the header of the file at `path`.
pub fn push_header(report: &mut String, path: &str)
    ensures
        final(report)@ == old(report)@ + header(path@),
{
    report.append("=== ");
    report.append(path);
    report.append(" ===\n");
    assert(report@ =~= old(report)@ + header(path@));
}

/// Appends the notice that the file at `path` was deleted.
pub fn push_deletion_notice(report: &mut String, path: &str)
    ensures
        final(report)@ == old(report)@ + deletion_notice(path@),
{
    report.append("deleted file: ");
    report.append(path);
    report.append("\n");
    assert(report@ =~= old(report)@ + deletion_notice(path@));
}

/// Appends what a report shows of `diff`.
pub fn push_patch(report: &mut String, diff: &str)
    ensures
        final(report)@ == old(report)@ + patch_body(diff@),
{
    let lines = leading_lines(diff, MAX_PATCH_LINES);
    let mut i: usize = 0;
    assert(report@ =~= old(report)@ + terminated(texts(lines@).take(0)));
    while i < lines.len()
        invariant
            i <= lines.len(),
            report@ == old(report)@ + terminated(texts(lines@).take(i as int)),
        decreases lines.len() - i,
    {
        let ghost before = report@;
        report.append(lines[i].as_str());
        report.push('\n');
        proof {
            let shown = texts(lines@).take(i as int);
            lemma_terminated_push(shown, lines[i as int]@);
            assert(texts(lines@).take(i + 1) =~= shown.push(lines[i as int]@));
            assert(report@ =~= before + lines[i as int]@ + seq!['\n']);
            assert(report@ =~= old(report)@ + terminated(texts(lines@).take(i + 1)));
        }
        i += 1;
    }
    assert(texts(lines@).take(lines.len() as int) =~= texts(lines@));
}

} // verus!
