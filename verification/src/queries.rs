//! The queries that a collection of the report makes: one for the status
//! listing, and one for the diff of each staged file that is not deleted.

use crate::collector::{advance, staged_lines, CollectorView, ProgressView};
use crate::command::{CommandView, OutcomeView};
use crate::diff::report_of;
use crate::entry::parse_line;
use crate::error::ErrorView;
use crate::report::{deletion_notice, header, patch_body};
use vstd::prelude::*;

verus! {

/// Whether every one of `lines` names a path.
pub open spec fn all_named(lines: Seq<Seq<char>>) -> bool {
    forall|i: int| 0 <= i < lines.len() ==> parse_line(#[trigger] lines[i]) is Some
}

/// The paths that diffs are asked for: those of the files that are not
/// deleted, in the order of the lines, up to the first line without a path.
pub open spec fn queried(lines: Seq<Seq<char>>) -> Seq<Seq<char>>
    decreases lines.len(),
{
    if lines.len() == 0 {
        Seq::empty()
    } else {
        match parse_line(lines[0]) {
            None => Seq::empty(),
            Some(entry) => if entry.is_deleted() {
                queried(lines.drop_first())
            } else {
                seq![entry.path] + queried(lines.drop_first())
            },
        }
    }
}

/// Whether `diffs` holds a text for every diff that is asked for.
pub open spec fn all_answered(lines: Seq<Seq<char>>, diffs: Seq<OutcomeView>) -> bool {
    &&& queried(lines).len() <= diffs.len()
    &&& forall|k: int| 0 <= k < queried(lines).len() ==> (#[trigger] diffs[k]).text() is Ok
}

/// The number of lines that name a deleted file.
pub open spec fn deleted_among(lines: Seq<Seq<char>>) -> nat
    decreases lines.len(),
{
    if lines.len() == 0 {
        0
    } else {
        let others = deleted_among(lines.drop_first());
        match parse_line(lines[0]) {
            Some(entry) => if entry.is_deleted() {
                others + 1
            } else {
                others
            },
            None => others,
        }
    }
}

/// The queries that a collection makes from `progress` on, while it is
/// handed `answers` one by one. The last of them has no answer where the
/// answers run out.
pub open spec fn asked(progress: ProgressView, answers: Seq<OutcomeView>) -> Seq<CommandView>
    decreases answers.len(),
{
    match progress {
        ProgressView::Finished(_) => Seq::empty(),
        ProgressView::Pending(collector) => if answers.len() == 0 {
            seq![collector.command()]
        } else {
            seq![collector.command()] + asked(
                collector.resume(answers[0]),
                answers.drop_first(),
            )
        },
    }
}

/// The lines after the first name a path where all do, and their diffs are
/// answered where all are: by the same answers after a deleted file, and by
/// the answers after the first otherwise.
pub proof fn lemma_rest_named_and_answered(lines: Seq<Seq<char>>, diffs: Seq<OutcomeView>)
    requires
        lines.len() > 0,
        all_named(lines),
    ensures
        parse_line(lines[0]) is Some,
        all_named(lines.drop_first()),
        all_answered(lines, diffs) ==> if parse_line(lines[0])->0.is_deleted() {
            all_answered(lines.drop_first(), diffs)
        } else {
            &&& diffs.len() > 0
            &&& diffs[0].text() is Ok
            &&& all_answered(lines.drop_first(), diffs.drop_first())
        },
{
    let rest = lines.drop_first();
    assert(parse_line(lines[0]) is Some);
    assert forall|i: int| 0 <= i < rest.len() implies parse_line(#[trigger] rest[i]) is Some by {
        assert(rest[i] == lines[i + 1]);
    }
    if all_answered(lines, diffs) && !parse_line(lines[0])->0.is_deleted() {
        let later = diffs.drop_first();
        assert(diffs[0].text() is Ok);
        assert forall|k: int| 0 <= k < queried(rest).len() implies (#[trigger] later[k]).text()
            is Ok by {
            assert(diffs[k + 1].text() is Ok);
        }
    }
}

/// A collection that is handed the outcome of the status query and then
/// those of its diff queries asks for the listing first, and is then at the
/// beginning of the listing's lines.
pub proof fn lemma_asked_from_start(status: OutcomeView, diffs: Seq<OutcomeView>)
    ensures
        asked(ProgressView::Pending(CollectorView::Listing), seq![status] + diffs) == seq![
            CommandView::Status,
        ] + asked(CollectorView::Listing.resume(status), diffs),
{
    let answers = seq![status] + diffs;
    assert(answers[0] == status);
    assert(answers.drop_first() =~= diffs);
}

/// A collection asks for the diffs of the files that are not deleted, in
/// the order of the listing, and for no other: never for a deleted file. It
/// asks for all of them where every one of them is answered with a text.
pub proof fn lemma_asked_advance(
    report: Seq<char>,
    lines: Seq<Seq<char>>,
    diffs: Seq<OutcomeView>,
)
    ensures
        asked(advance(report, lines), diffs).len() <= queried(lines).len(),
        forall|i: int|
            0 <= i < asked(advance(report, lines), diffs).len() ==> asked(
                advance(report, lines),
                diffs,
            )[i] == CommandView::Diff(queried(lines)[i]),
        all_answered(lines, diffs) ==> asked(advance(report, lines), diffs).len() == queried(
            lines,
        ).len(),
    decreases lines.len(),
{
    if lines.len() != 0 {
        match parse_line(lines[0]) {
            None => {},
            Some(entry) => {
                let rest = lines.drop_first();
                if entry.is_deleted() {
                    lemma_asked_advance(
                        report + header(entry.path) + deletion_notice(entry.path),
                        rest,
                        diffs,
                    );
                } else {
                    let waiting = CollectorView::Patch {
                        report: report + header(entry.path),
                        path: entry.path,
                        rest,
                    };
                    assert(advance(report, lines) == ProgressView::Pending(waiting));
                    if diffs.len() != 0 {
                        let later = diffs.drop_first();
                        match diffs[0].text() {
                            Err(failure) => {
                                assert(waiting.resume(diffs[0]) == ProgressView::Finished(
                                    Err(failure),
                                ));
                                assert(asked(waiting.resume(diffs[0]), later) =~= Seq::<
                                    CommandView,
                                >::empty());
                            },
                            Ok(diff) => {
                                let grown = report + header(entry.path) + patch_body(diff);
                                lemma_asked_advance(grown, rest, later);
                                let made = asked(advance(report, lines), diffs);
                                let next = asked(advance(grown, rest), later);
                                assert(made =~= seq![CommandView::Diff(entry.path)] + next);
                                assert forall|i: int| 0 <= i < made.len() implies made[i]
                                    == CommandView::Diff(queried(lines)[i]) by {
                                    if i > 0 {
                                        assert(made[i] == next[i - 1]);
                                        assert(queried(lines)[i] == queried(rest)[i - 1]);
                                    }
                                }
                                if all_answered(lines, diffs) {
                                    let needed = queried(rest).len();
                                    assert forall|k: int| 0 <= k < needed implies (
                                    #[trigger] later[k]).text() is Ok by {
                                        assert(diffs[k + 1].text() is Ok);
                                    }
                                }
                            },
                        }
                    }
                }
            },
        }
    }
}

/// Where every line names a path, a diff is asked for every file but the
/// deleted ones.
pub proof fn lemma_queried_count(lines: Seq<Seq<char>>)
    requires
        all_named(lines),
    ensures
        queried(lines).len() + deleted_among(lines) == lines.len(),
    decreases lines.len(),
{
    if lines.len() != 0 {
        lemma_rest_named_and_answered(lines, Seq::empty());
        lemma_queried_count(lines.drop_first());
    }
}

/// One query is made for the listing and one for each file that is not
/// deleted, where every line of the listing names a path and every query is
/// answered with a text.
pub proof fn lemma_queries_made(status: OutcomeView, diffs: Seq<OutcomeView>)
    requires
        status.text() is Ok,
        all_named(staged_lines(status.text()->Ok_0)),
        all_answered(staged_lines(status.text()->Ok_0), diffs),
    ensures
        asked(ProgressView::Pending(CollectorView::Listing), seq![status] + diffs).len()
            == staged_lines(status.text()->Ok_0).len() - deleted_among(
            staged_lines(status.text()->Ok_0),
        ) + 1,
{
    let lines = staged_lines(status.text()->Ok_0);
    lemma_asked_from_start(status, diffs);
    lemma_asked_advance(Seq::empty(), lines, diffs);
    lemma_queried_count(lines);
}

/// With nothing staged the report is empty, and no diff is asked for.
pub proof fn lemma_nothing_staged(status: OutcomeView, diffs: Seq<OutcomeView>)
    requires
        status.text() is Ok,
        staged_lines(status.text()->Ok_0).len() == 0,
    ensures
        report_of(status, diffs) == Ok::<Seq<char>, ErrorView>(Seq::empty()),
        asked(ProgressView::Pending(CollectorView::Listing), seq![status] + diffs) == seq![
            CommandView::Status,
        ],
{
    lemma_asked_from_start(status, diffs);
}

/// Where the status listing cannot be had, the collection fails with the
/// failure of the status query, there is no report, and nothing more is
/// asked.
pub proof fn lemma_listing_failed(status: OutcomeView, diffs: Seq<OutcomeView>)
    requires
        status.text() is Err,
    ensures
        report_of(status, diffs) == Err::<Seq<char>, ErrorView>(status.text()->Err_0),
        CollectorView::Listing.resume(status) == ProgressView::Finished(
            Err(status.text()->Err_0),
        ),
        asked(ProgressView::Pending(CollectorView::Listing), seq![status] + diffs) == seq![
            CommandView::Status,
        ],
{
    lemma_asked_from_start(status, diffs);
}

} // verus!
