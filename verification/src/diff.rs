//! The report of the staged changes as a whole: what it is, given what git
//! answered, and that a collector driven to its end arrives at it.

use crate::collector::{
    advance, result_view, staged_lines, CollectorView, DiffCollector, Progress, ProgressView,
};
use crate::command::{Outcome, OutcomeView};
use crate::entry::parse_line;
use crate::error::{ErrorView, GitError};
use crate::report::{deletion_notice, header, patch_body, section};
use vstd::prelude::*;

verus! {

/// The views of a vector of outcomes.
pub open spec fn outcomes(v: Seq<Outcome>) -> Seq<OutcomeView> {
    Seq::new(v.len(), |i: int| v[i]@)
}

/// `tail` with `head` before it, where `tail` is a text.
pub open spec fn after(head: Seq<char>, tail: Result<Seq<char>, ErrorView>) -> Result<
    Seq<char>,
    ErrorView,
> {
    match tail {
        Ok(text) => Ok(head + text),
        Err(failure) => Err(failure),
    }
}

/// The sections of the files that `lines` name, in the order of the lines.
/// `diffs` holds the outcomes of the diff queries, in the order in which
/// they are made: one for each file that is not deleted. The first line
/// without a path, or the first query without a text, is the failure of the
/// whole; a query for which `diffs` holds no outcome counts as one that
/// could not be run.
pub open spec fn assemble(lines: Seq<Seq<char>>, diffs: Seq<OutcomeView>) -> Result<
    Seq<char>,
    ErrorView,
>
    decreases lines.len(),
{
    if lines.len() == 0 {
        Ok(Seq::empty())
    } else {
        match parse_line(lines[0]) {
            None => Err(ErrorView::Parse),
            Some(entry) => if entry.is_deleted() {
                after(section(entry, Seq::empty()), assemble(lines.drop_first(), diffs))
            } else if diffs.len() == 0 {
                Err(ErrorView::Subprocess)
            } else {
                match diffs[0].text() {
                    Err(failure) => Err(failure),
                    Ok(diff) => after(
                        section(entry, diff),
                        assemble(lines.drop_first(), diffs.drop_first()),
                    ),
                }
            },
        }
    }
}

/// The report of the staged changes, where `status` is the outcome of the
/// status query and `diffs` are the outcomes of the diff queries.
pub open spec fn report_of(status: OutcomeView, diffs: Seq<OutcomeView>) -> Result<
    Seq<char>,
    ErrorView,
> {
    match status.text() {
        Err(failure) => Err(failure),
        Ok(listing) => assemble(staged_lines(listing), diffs),
    }
}

/// Where a collection ends that stands at `progress` and is handed
/// `answers` one by one, each for the query that is pending then. A pending
/// query without an answer ends it as one that could not be run.
pub open spec fn replay(progress: ProgressView, answers: Seq<OutcomeView>) -> Result<
    Seq<char>,
    ErrorView,
>
    decreases answers.len(),
{
    match progress {
        ProgressView::Finished(result) => result,
        ProgressView::Pending(collector) => if answers.len() == 0 {
            Err(ErrorView::Subprocess)
        } else {
            replay(collector.resume(answers[0]), answers.drop_first())
        },
    }
}

/// A collection that has `report` and goes on through `lines` ends with
/// `report` followed by the sections of `lines`.
pub proof fn lemma_replay_advance(
    report: Seq<char>,
    lines: Seq<Seq<char>>,
    diffs: Seq<OutcomeView>,
)
    ensures
        replay(advance(report, lines), diffs) == after(report, assemble(lines, diffs)),
    decreases lines.len(),
{
    if lines.len() == 0 {
        assert(report + Seq::<char>::empty() =~= report);
    } else {
        match parse_line(lines[0]) {
            None => {},
            Some(entry) => {
                let rest = lines.drop_first();
                if entry.is_deleted() {
                    let own = section(entry, Seq::empty());
                    assert(own =~= header(entry.path) + deletion_notice(entry.path));
                    assert(report + own =~= report + header(entry.path) + deletion_notice(
                        entry.path,
                    ));
                    lemma_replay_advance(report + own, rest, diffs);
                    lemma_after_after(report, own, assemble(rest, diffs));
                } else if diffs.len() == 0 {
                } else {
                    let waiting = CollectorView::Patch {
                        report: report + header(entry.path),
                        path: entry.path,
                        rest,
                    };
                    assert(advance(report, lines) == ProgressView::Pending(waiting));
                    assert(replay(advance(report, lines), diffs) == replay(
                        waiting.resume(diffs[0]),
                        diffs.drop_first(),
                    ));
                    match diffs[0].text() {
                        Err(failure) => {
                            assert(waiting.resume(diffs[0]) == ProgressView::Finished(
                                Err(failure),
                            ));
                        },
                        Ok(diff) => {
                            let own = section(entry, diff);
                            assert(own =~= header(entry.path) + patch_body(diff));
                            assert(report + own =~= report + header(entry.path) + patch_body(
                                diff,
                            ));
                            assert(waiting.resume(diffs[0]) == advance(report + own, rest));
                            lemma_replay_advance(report + own, rest, diffs.drop_first());
                            lemma_after_after(report, own, assemble(rest, diffs.drop_first()));
                        },
                    }
                }
            },
        }
    }
}

/// Putting two texts before a result, one after the other, puts their
/// concatenation before it.
pub proof fn lemma_after_after(
    first: Seq<char>,
    second: Seq<char>,
    tail: Result<Seq<char>, ErrorView>,
)
    ensures
        after(first, after(second, tail)) == after(first + second, tail),
{
    match tail {
        Ok(text) => {
            assert(first + (second + text) =~= (first + second) + text);
        },
        Err(_) => {},
    }
}

/// A collector that is handed the outcome of the status query and then the
/// outcomes of its diff queries, in order, ends with `report_of` them.
pub proof fn lemma_replay_is_report(status: OutcomeView, diffs: Seq<OutcomeView>)
    ensures
        replay(ProgressView::Pending(CollectorView::Listing), seq![status] + diffs) == report_of(
            status,
            diffs,
        ),
{
    let answers = seq![status] + diffs;
    assert(answers[0] == status);
    assert(answers.drop_first() =~= diffs);
    let start = CollectorView::Listing;
    assert(replay(ProgressView::Pending(start), answers) == replay(start.resume(status), diffs));
    match status.text() {
        Err(failure) => {
            assert(start.resume(status) == ProgressView::Finished(Err(failure)));
        },
        Ok(listing) => {
            let lines = staged_lines(listing);
            assert(start.resume(status) == advance(Seq::empty(), lines));
            lemma_replay_advance(Seq::empty(), lines, diffs);
            match assemble(lines, diffs) {
                Ok(text) => {
                    assert(Seq::<char>::empty() + text =~= text);
                },
                Err(_) => {},
            }
        },
    }
}

/// The report of the staged changes, from what git answered: `status` is
/// the outcome of the status query, and `diffs` are the outcomes of the diff
/// queries, in the order in which a collector makes them. A query for which
/// `diffs` holds no outcome counts as one that could not be run; outcomes
/// beyond those that the listing calls for are not looked at.
pub fn collect_diff(status: &Outcome, diffs: &Vec<Outcome>) -> (report: Result<String, GitError>)
    ensures
        result_view(report) == report_of(status@, outcomes(diffs@)),
{
    let mut progress = DiffCollector::new().resume(status);
    let mut used: usize = 0;
    proof {
        lemma_replay_is_report(status@, outcomes(diffs@));
        assert(outcomes(diffs@).skip(0) =~= outcomes(diffs@));
        assert((seq![status@] + outcomes(diffs@))[0] == status@);
        assert((seq![status@] + outcomes(diffs@)).drop_first() =~= outcomes(diffs@));
    }
    loop
        invariant
            used <= diffs.len(),
            report_of(status@, outcomes(diffs@)) == replay(
                progress@,
                outcomes(diffs@).skip(used as int),
            ),
        decreases diffs.len() - used,
    {
        match progress {
            Progress::Finished(report) => {
                return report;
            },
            Progress::Pending(collector) => {
                if used == diffs.len() {
                    return Err(GitError::Subprocess);
                }
                let ghost left = outcomes(diffs@).skip(used as int);
                assert(left[0] == diffs[used as int]@);
                assert(left.drop_first() =~= outcomes(diffs@).skip(used + 1));
                progress = collector.resume(&diffs[used]);
                used += 1;
            },
        }
    }
}

} // verus!
