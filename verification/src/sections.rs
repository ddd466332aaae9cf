//! The report as its sections: one for each staged file, in the order of
//! the status listing.

use crate::collector::staged_lines;
use crate::command::OutcomeView;
use crate::diff::{assemble, report_of};
use crate::entry::parse_line;
use crate::error::ErrorView;
use crate::queries::{all_answered, all_named, lemma_rest_named_and_answered, queried};
use crate::report::section;
use vstd::prelude::*;

verus! {

/// The text of the diff that belongs to line `i`: the answer to as many
/// queries as there are files before it that are not deleted.
pub open spec fn diff_at(lines: Seq<Seq<char>>, diffs: Seq<OutcomeView>, i: int) -> Seq<char> {
    diffs[queried(lines.take(i)).len() as int].text()->Ok_0
}

/// The section of the file that line `i` names.
pub open spec fn section_at(lines: Seq<Seq<char>>, diffs: Seq<OutcomeView>, i: int) -> Seq<
    char,
> {
    section(parse_line(lines[i])->0, diff_at(lines, diffs, i))
}

/// The sections of the files that `lines` name, in the order of the lines.
pub open spec fn sections(lines: Seq<Seq<char>>, diffs: Seq<OutcomeView>) -> Seq<Seq<char>> {
    Seq::new(lines.len(), |i: int| section_at(lines, diffs, i))
}

/// The diff of a file that is not deleted is one of those asked for.
pub proof fn lemma_queried_reaches(lines: Seq<Seq<char>>, n: int)
    requires
        0 <= n < lines.len(),
        all_named(lines),
        !parse_line(lines[n])->0.is_deleted(),
    ensures
        queried(lines.take(n)).len() < queried(lines).len(),
    decreases lines.len(),
{
    let rest = lines.drop_first();
    lemma_rest_named_and_answered(lines, Seq::empty());
    if n > 0 {
        assert(lines.take(n).drop_first() =~= rest.take(n - 1));
        assert(lines.take(n)[0] == lines[0]);
        assert(rest[n - 1] == lines[n]);
        lemma_queried_reaches(rest, n - 1);
    } else {
        assert(lines.take(0) =~= Seq::<Seq<char>>::empty());
    }
}

/// Where every line names a path and every diff that is asked for is
/// answered with a text, the sections of the lines are joined in the order
/// of the lines, with nothing before, between or after them.
pub proof fn lemma_sections_in_listing_order(lines: Seq<Seq<char>>, diffs: Seq<OutcomeView>)
    requires
        all_named(lines),
        all_answered(lines, diffs),
    ensures
        assemble(lines, diffs) == Ok::<Seq<char>, ErrorView>(sections(lines, diffs).flatten()),
    decreases lines.len(),
{
    let all = sections(lines, diffs);
    if lines.len() == 0 {
        assert(all.flatten() =~= Seq::<char>::empty());
    } else {
        let rest = lines.drop_first();
        let entry = parse_line(lines[0])->0;
        lemma_rest_named_and_answered(lines, diffs);
        assert(lines.take(0) =~= Seq::<Seq<char>>::empty());
        let later = if entry.is_deleted() {
            diffs
        } else {
            diffs.drop_first()
        };
        let shift: int = if entry.is_deleted() {
            0
        } else {
            1
        };
        lemma_sections_in_listing_order(rest, later);
        let others = sections(rest, later);
        assert forall|i: int| 0 <= i < rest.len() implies others[i] == all[i + 1] by {
            assert(lines.take(i + 1).drop_first() =~= rest.take(i));
            assert(lines.take(i + 1)[0] == lines[0]);
            assert(queried(lines.take(i + 1)).len() == queried(rest.take(i)).len() + shift);
            let at = queried(rest.take(i)).len() as int;
            if !parse_line(rest[i])->0.is_deleted() {
                lemma_queried_reaches(rest, i);
                assert(later[at] == diffs[at + shift]);
            }
        }
        assert(all.drop_first() =~= others);
        assert(all[0] == section(entry, diffs[0].text()->Ok_0));
        assert(all.flatten() == all[0] + others.flatten());
    }
}

/// The sections are joined to a text exactly where every line names a path
/// and every diff that is asked for is answered with a text.
pub proof fn lemma_assembled_exactly(lines: Seq<Seq<char>>, diffs: Seq<OutcomeView>)
    ensures
        assemble(lines, diffs) is Ok <==> all_named(lines) && all_answered(lines, diffs),
    decreases lines.len(),
{
    if all_named(lines) && all_answered(lines, diffs) {
        lemma_sections_in_listing_order(lines, diffs);
    }
    if lines.len() != 0 && assemble(lines, diffs) is Ok {
        let rest = lines.drop_first();
        let entry = parse_line(lines[0])->0;
        let later = if entry.is_deleted() {
            diffs
        } else {
            diffs.drop_first()
        };
        lemma_assembled_exactly(rest, later);
        assert forall|i: int| 0 <= i < lines.len() implies parse_line(#[trigger] lines[i])
            is Some by {
            if i > 0 {
                assert(lines[i] == rest[i - 1]);
            }
        }
        assert forall|k: int| 0 <= k < queried(lines).len() implies (#[trigger] diffs[k]).text()
            is Ok by {
            if !entry.is_deleted() && k > 0 {
                assert(diffs[k] == later[k - 1]);
                assert(later[k - 1].text() is Ok);
            }
        }
    }
}

/// The report holds one section for each staged file, in the order of the
/// status listing, and nothing else, where every line of the listing names
/// a path and every diff that is asked for is answered with a text; and
/// there is no report where one does not.
pub proof fn lemma_report_follows_listing(status: OutcomeView, diffs: Seq<OutcomeView>)
    requires
        status.text() is Ok,
    ensures
        report_of(status, diffs) is Ok <==> all_named(staged_lines(status.text()->Ok_0))
            && all_answered(staged_lines(status.text()->Ok_0), diffs),
        report_of(status, diffs) is Ok ==> report_of(status, diffs)->Ok_0 == sections(
            staged_lines(status.text()->Ok_0),
            diffs,
        ).flatten(),
{
    let lines = staged_lines(status.text()->Ok_0);
    lemma_assembled_exactly(lines, diffs);
    if all_named(lines) && all_answered(lines, diffs) {
        lemma_sections_in_listing_order(lines, diffs);
    }
}

} // verus!
