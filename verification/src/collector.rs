//! Collecting the report of the staged changes, one git query at a time.
//!
//! A `DiffCollector` decides; its caller runs git. The collector names the
//! query that it waits for, the caller runs it and hands back the outcome,
//! and the collector either names the next query or ends with the report.

use crate::command::{CommandView, GitCommand, Outcome, OutcomeView};
use crate::entry::{parse_line, FileChangeEntry};
use crate::error::{ErrorView, GitError};
use crate::report::{
    deletion_notice, header, patch_body, push_deletion_notice, push_header, push_patch,
};
use crate::text::{lines, lines_of, texts};
use vstd::prelude::*;

verus! {

/// The lines of the status listing that name a staged file: all but the
/// empty ones.
pub open spec fn staged_lines(listing: Seq<char>) -> Seq<Seq<char>> {
    lines_of(listing).filter(|line: Seq<char>| line.len() > 0)
}

/// What a collector waits for, and what it holds meanwhile.
pub enum CollectorView {
    /// It waits for the status listing.
    Listing,
    /// It waits for the diff of the file at `path`. `report` is the report
    /// up to and including the header of that file, and `rest` are the
    /// lines of the listing after that file's.
    Patch { report: Seq<char>, path: Seq<char>, rest: Seq<Seq<char>> },
}

/// Where a collection stands after an outcome.
pub enum ProgressView {
    /// Another query has to be run.
    Pending(CollectorView),
    /// The collection ended, with the report or with a failure.
    Finished(Result<Seq<char>, ErrorView>),
}

/// Goes through `lines`, with `report` collected so far, up to the first
/// line that needs a query or that names no path. The section of a deleted
/// file is appended on the way, and no query is made for it.
pub open spec fn advance(report: Seq<char>, lines: Seq<Seq<char>>) -> ProgressView
    decreases lines.len(),
{
    if lines.len() == 0 {
        ProgressView::Finished(Ok(report))
    } else {
        match parse_line(lines[0]) {
            None => ProgressView::Finished(Err(ErrorView::Parse)),
            Some(entry) => if entry.is_deleted() {
                advance(
                    report + header(entry.path) + deletion_notice(entry.path),
                    lines.drop_first(),
                )
            } else {
                ProgressView::Pending(
                    CollectorView::Patch {
                        report: report + header(entry.path),
                        path: entry.path,
                        rest: lines.drop_first(),
                    },
                )
            },
        }
    }
}

impl CollectorView {
    /// The query that the collector waits for.
    pub open spec fn command(self) -> CommandView {
        match self {
            CollectorView::Listing => CommandView::Status,
            CollectorView::Patch { path, .. } => CommandView::Diff(path),
        }
    }

    /// Where the collection stands once `outcome` has come back. A query
    /// that yields no text ends the collection with its failure.
    pub open spec fn resume(self, outcome: OutcomeView) -> ProgressView {
        match outcome.text() {
            Err(failure) => ProgressView::Finished(Err(failure)),
            Ok(text) => match self {
                CollectorView::Listing => advance(Seq::empty(), staged_lines(text)),
                CollectorView::Patch { report, rest, .. } => advance(
                    report + patch_body(text),
                    rest,
                ),
            },
        }
    }
}

/// A collection of the report that waits for the outcome of a query.
#[derive(Debug)]
pub struct DiffCollector {
    /// The report so far.
    report: String,
    /// The path whose diff is awaited; none while the listing is awaited.
    pending: Option<String>,
    /// The lines of the listing that name a staged file.
    lines: Vec<String>,
    /// The index of the first line that the report does not yet cover.
    next: usize,
}

/// Where a collection stands after an outcome.
#[derive(Debug)]
pub enum Progress {
    /// Another query has to be run: the one that the collector names.
    Pending(DiffCollector),
    /// The collection ended, with the report or with a failure.
    Finished(Result<String, GitError>),
}

/// A report or a failure, as mathematical values.
pub open spec fn result_view(result: Result<String, GitError>) -> Result<Seq<char>, ErrorView> {
    match result {
        Ok(report) => Ok(report@),
        Err(failure) => Err(failure@),
    }
}

impl View for DiffCollector {
    type V = CollectorView;

    closed spec fn view(&self) -> CollectorView {
        match self.pending {
            None => CollectorView::Listing,
            Some(path) => CollectorView::Patch {
                report: self.report@,
                path: path@,
                rest: texts(self.lines@).skip(self.next as int),
            },
        }
    }
}

impl View for Progress {
    type V = ProgressView;

    open spec fn view(&self) -> ProgressView {
        match self {
            Progress::Pending(collector) => ProgressView::Pending(collector@),
            Progress::Finished(result) => ProgressView::Finished(result_view(*result)),
        }
    }
}

/// The lines of the status listing that name a staged file.
fn staged(listing: &str) -> (kept: Vec<String>)
    ensures
        texts(kept@) == staged_lines(listing@),
{
    let all = lines(listing);
    let ghost named = |line: Seq<char>| line.len() > 0;
    let ghost whole = texts(all@);
    let mut kept: Vec<String> = Vec::new();
    proof {
        reveal(Seq::filter);
        assert(whole.take(0).filter(named) =~= texts(kept@));
    }
    for line in rest: all
        invariant
            named == (|line: Seq<char>| line.len() > 0),
            whole == texts(rest.seq()),
            texts(kept@) == whole.take(rest.index()).filter(named),
    {
        let ghost before = texts(kept@);
        proof {
            reveal(Seq::filter);
            assert(whole.take(rest.index() + 1).drop_last() =~= whole.take(rest.index()));
        }
        if !line.as_str().is_empty() {
            kept.push(line);
            assert(texts(kept@) =~= before.push(line@));
        }
    }
    assert(whole.take(whole.len() as int) =~= whole);
    kept
}

/// Goes through the lines from `from` on, with `so_far` collected already.
fn proceed(so_far: String, lines: Vec<String>, from: usize) -> (progress: Progress)
    requires
        from <= lines.len(),
    ensures
        progress@ == advance(so_far@, texts(lines@).skip(from as int)),
{
    let ghost goal = advance(so_far@, texts(lines@).skip(from as int));
    let mut report = so_far;
    let mut next = from;
    while next < lines.len()
        invariant
            next <= lines.len(),
            goal == advance(so_far@, texts(lines@).skip(from as int)),
            goal == advance(report@, texts(lines@).skip(next as int)),
        decreases lines.len() - next,
    {
        let ghost rest = texts(lines@).skip(next as int);
        assert(rest[0] == lines[next as int]@);
        assert(rest.drop_first() =~= texts(lines@).skip(next + 1));
        match FileChangeEntry::parse(lines[next].as_str()) {
            Err(failure) => {
                return Progress::Finished(Err(failure));
            },
            Ok(entry) => {
                push_header(&mut report, entry.path.as_str());
                if entry.is_deleted() {
                    push_deletion_notice(&mut report, entry.path.as_str());
                    next += 1;
                } else {
                    return Progress::Pending(
                        DiffCollector { report, pending: Some(entry.path), lines, next: next + 1 },
                    );
                }
            },
        }
    }
    assert(texts(lines@).skip(next as int) =~= Seq::<Seq<char>>::empty());
    Progress::Finished(Ok(report))
}

impl DiffCollector {
    /// The next line to cover lies within the listing, or just after it.
    #[verifier::type_invariant]
    spec fn within(self) -> bool {
        self.next <= self.lines.len()
    }

    /// A collection at its start: it waits for the status listing.
    pub fn new() -> (collector: DiffCollector)
        ensures
            collector@ == CollectorView::Listing,
    {
        DiffCollector { report: String::new(), pending: None, lines: Vec::new(), next: 0 }
    }

    /// The query that the collector waits for.
    pub fn command(&self) -> (command: GitCommand)
        ensures
            command@ == self@.command(),
    {
        match &self.pending {
            None => GitCommand::Status,
            Some(path) => GitCommand::Diff(path.clone()),
        }
    }

    /// Takes the outcome of the query that the collector waited for.
    pub fn resume(self, outcome: &Outcome) -> (progress: Progress)
        ensures
            progress@ == self@.resume(outcome@),
    {
        proof {
            use_type_invariant(&self);
        }
        match outcome.text() {
            Err(failure) => Progress::Finished(Err(failure)),
            Ok(text) => match self.pending {
                None => {
                    let kept = staged(text);
                    assert(texts(kept@).skip(0) =~= texts(kept@));
                    proceed(String::new(), kept, 0)
                },
                Some(_) => {
                    let mut report = self.report;
                    push_patch(&mut report, text);
                    proceed(report, self.lines, self.next)
                },
            },
        }
    }
}

} // verus!
