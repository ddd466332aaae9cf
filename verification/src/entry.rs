//! One staged file, as a line of the status listing names it.

use crate::error::{ErrorView, GitError};
use crate::text::{chars_of, find, first_index, lemma_first_index, text_between};
use vstd::prelude::*;
use vstd::string::StrSliceExecFns;

verus! {

/// The change staged for one file.
#[derive(Debug, PartialEq, Eq)]
pub struct FileChangeEntry {
    /// The status code: `A` for an added file, `M` for a modified one, `D`
    /// for a deleted one, or whatever else git wrote before the first tab.
    pub status: String,
    /// The path of the file.
    pub path: String,
}

/// A `FileChangeEntry` as a mathematical value.
pub struct EntryView {
    pub status: Seq<char>,
    pub path: Seq<char>,
}

impl EntryView {
    /// Whether the entry stands for a deleted file.
    pub open spec fn is_deleted(self) -> bool {
        self.status =~= seq!['D']
    }
}

impl View for FileChangeEntry {
    type V = EntryView;

    open spec fn view(&self) -> EntryView {
        EntryView { status: self.status@, path: self.path@ }
    }
}

/// The entry that a line of the status listing stands for. The status is
/// what precedes the first tab; the path is what follows it, up to the next
/// tab or the end of the line. A line without a tab stands for none.
pub open spec fn parse_line(line: Seq<char>) -> Option<EntryView> {
    let tab = first_index(line, '\t') as int;
    if tab < line.len() {
        let rest = line.skip(tab + 1);
        Some(
            EntryView { status: line.take(tab), path: rest.take(first_index(rest, '\t') as int) },
        )
    } else {
        None
    }
}

impl FileChangeEntry {
    /// Reads one line of the status listing. Fails with `GitError::Parse`
    /// exactly on a line without a tab.
    pub fn parse(line: &str) -> (entry: Result<FileChangeEntry, GitError>)
        ensures
            match parse_line(line@) {
                Some(e) => entry is Ok && entry->Ok_0@ == e,
                None => entry is Err && entry->Err_0@ == ErrorView::Parse,
            },
    {
        let chars = chars_of(line);
        let tab = find(&chars, 0, '\t');
        proof {
            assert(chars@.skip(0) =~= line@);
            lemma_first_index(line@, '\t');
        }
        if tab == chars.len() {
            return Err(GitError::Parse);
        }
        let end = find(&chars, tab + 1, '\t');
        let status = text_between(&chars, 0, tab);
        let path = text_between(&chars, tab + 1, end);
        proof {
            let rest = line@.skip(tab + 1);
            assert(status@ =~= line@.take(tab as int));
            assert(path@ =~= rest.take(first_index(rest, '\t') as int));
        }
        Ok(FileChangeEntry { status, path })
    }

    /// Whether the entry stands for a deleted file.
    pub fn is_deleted(&self) -> (deleted: bool)
        ensures
            deleted == self@.is_deleted(),
    {
        let status = self.status.as_str();
        status.unicode_len() == 1 && status.get_char(0) == 'D'
    }
}

} // verus!
