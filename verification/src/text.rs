//! Text as sequences of characters: searching, splitting into lines, and
//! decoding the bytes that a subprocess wrote.

use vstd::prelude::*;
use vstd::utf8::{decode_utf8, valid_utf8};

verus! {

/// The index of the first `c` in `s`, or `s.len()` where `s` holds none.
pub open spec fn first_index(s: Seq<char>, c: char) -> nat
    decreases s.len(),
{
    if s.len() == 0 || s[0] == c {
        0
    } else {
        1 + first_index(s.drop_first(), c)
    }
}

/// `first_index` stays within `s`, passes over no `c`, and stops on one.
pub proof fn lemma_first_index(s: Seq<char>, c: char)
    ensures
        first_index(s, c) <= s.len(),
        forall|j: int| 0 <= j < first_index(s, c) ==> s[j] != c,
        first_index(s, c) < s.len() ==> s[first_index(s, c) as int] == c,
    decreases s.len(),
{
    if s.len() != 0 && s[0] != c {
        let rest = s.drop_first();
        lemma_first_index(rest, c);
        assert forall|j: int| 0 <= j < first_index(s, c) implies s[j] != c by {
            if j > 0 {
                assert(s[j] == rest[j - 1]);
            }
        }
        assert(first_index(rest, c) < rest.len() ==> rest[first_index(rest, c) as int]
            == s[first_index(s, c) as int]);
    }
}

/// Any position that no `c` precedes, and that either holds `c` or ends `s`,
/// is the one that `first_index` names.
pub proof fn lemma_first_index_is(s: Seq<char>, c: char, k: int)
    requires
        0 <= k <= s.len(),
        forall|j: int| 0 <= j < k ==> s[j] != c,
        k < s.len() ==> s[k] == c,
    ensures
        first_index(s, c) == k,
{
    lemma_first_index(s, c);
    let f = first_index(s, c) as int;
    if f < k {
        assert(s[f] == c);
    } else if k < f {
        assert(s[k] == c);
    }
}

/// A line without the carriage return that closed it, if one did.
pub open spec fn without_cr(line: Seq<char>) -> Seq<char> {
    if line.len() > 0 && line.last() == '\r' {
        line.drop_last()
    } else {
        line
    }
}

/// The lines of `text`. A line ends at a line feed, or at a carriage return
/// directly before one; neither belongs to the line. What follows the last
/// line feed is a line of its own, kept as it stands, unless it is empty.
pub open spec fn lines_of(text: Seq<char>) -> Seq<Seq<char>>
    decreases text.len(),
{
    let end = first_index(text, '\n') as int;
    if text.len() == 0 {
        Seq::empty()
    } else if end >= text.len() {
        seq![text]
    } else {
        seq![without_cr(text.take(end))] + lines_of(text.skip(end + 1))
    }
}

/// The first `n` items of `s`, or all of `s` where it has no more than `n`.
pub open spec fn at_most<T>(s: Seq<T>, n: int) -> Seq<T> {
    if 0 <= n < s.len() {
        s.take(n)
    } else {
        s
    }
}

/// A text without a line feed is one line, or none where it is empty.
pub proof fn lemma_lines_of_unbroken(text: Seq<char>)
    requires
        forall|j: int| 0 <= j < text.len() ==> text[j] != '\n',
    ensures
        lines_of(text) == if text.len() == 0 {
            Seq::<Seq<char>>::empty()
        } else {
            seq![text]
        },
{
    lemma_first_index_is(text, '\n', text.len() as int);
}

/// Where the first line feed of `text` stands at `end`, the first line is
/// what precedes it and the other lines are those of what follows it.
pub proof fn lemma_lines_of_broken(text: Seq<char>, end: int)
    requires
        0 <= end < text.len(),
        text[end] == '\n',
        forall|j: int| 0 <= j < end ==> text[j] != '\n',
    ensures
        lines_of(text) == seq![without_cr(text.take(end))] + lines_of(text.skip(end + 1)),
{
    lemma_first_index_is(text, '\n', end);
}

/// No line holds a line feed.
pub proof fn lemma_lines_hold_no_feed(text: Seq<char>)
    ensures
        forall|i: int, j: int|
            0 <= i < lines_of(text).len() && 0 <= j < lines_of(text)[i].len() ==> lines_of(
                text,
            )[i][j] != '\n',
    decreases text.len(),
{
    lemma_first_index(text, '\n');
    let end = first_index(text, '\n') as int;
    if text.len() != 0 && end < text.len() {
        let first = without_cr(text.take(end));
        let others = lines_of(text.skip(end + 1));
        lemma_lines_hold_no_feed(text.skip(end + 1));
        assert forall|i: int, j: int|
            0 <= i < lines_of(text).len() && 0 <= j < lines_of(text)[i].len() implies lines_of(
            text,
        )[i][j] != '\n' by {
            if i == 0 {
                assert(first[j] == text[j]);
            } else {
                assert(lines_of(text)[i] == others[i - 1]);
            }
        }
    }
}

/// The views of a vector of strings.
pub open spec fn texts(v: Seq<String>) -> Seq<Seq<char>> {
    Seq::new(v.len(), |i: int| v[i]@)
}

/// `String::push`: the string afterwards is the string before, with `c` as
/// one more character at its end.
pub assume_specification[ String::push ](text: &mut String, c: char)
    ensures
        final(text)@ == old(text)@.push(c),
;

/// What `String::from_utf8_lossy` makes of `bytes`: their text, with each
/// part that is not UTF-8 replaced by U+FFFD.
pub uninterp spec fn lossy_text(bytes: Seq<u8>) -> Seq<char>;

/// Calls `std::str::from_utf8`, which accepts `bytes` exactly when they are
/// UTF-8 and then returns the text that they encode.
#[verifier::external_body]
pub(crate) fn decode(bytes: &[u8]) -> (text: Option<&str>)
    ensures
        text is Some <==> valid_utf8(bytes@),
        text is Some ==> text->0@ == decode_utf8(bytes@),
{
    std::str::from_utf8(bytes).ok()
}

/// Calls `String::from_utf8_lossy`, which returns a text for any bytes, and
/// the text that they encode where they are UTF-8.
#[verifier::external_body]
pub(crate) fn decode_lossy(bytes: &[u8]) -> (text: String)
    ensures
        text@ == lossy_text(bytes@),
        valid_utf8(bytes@) ==> text@ == decode_utf8(bytes@),
{
    String::from_utf8_lossy(bytes).into_owned()
}

/// The characters of `text`, in order.
pub fn chars_of(text: &str) -> (out: Vec<char>)
    ensures
        out@ == text@,
{
    let mut out: Vec<char> = Vec::new();
    for c in rest: text.chars()
        invariant
            rest.seq() == text@,
            out@ == text@.take(rest.index()),
    {
        out.push(c);
    }
    out
}

/// The string made of the characters of `chars` from `from` up to `to`.
pub(crate) fn text_between(chars: &Vec<char>, from: usize, to: usize) -> (out: String)
    requires
        from <= to <= chars.len(),
    ensures
        out@ == chars@.subrange(from as int, to as int),
{
    let mut out = String::new();
    let mut i: usize = from;
    while i < to
        invariant
            from <= i <= to <= chars.len(),
            out@ == chars@.subrange(from as int, i as int),
        decreases to - i,
    {
        out.push(chars[i]);
        i += 1;
        assert(out@ =~= chars@.subrange(from as int, i as int));
    }
    out
}

/// The string made of `chars`, in order.
pub fn text_of(chars: &Vec<char>) -> (out: String)
    ensures
        out@ == chars@,
{
    let out = text_between(chars, 0, chars.len());
    assert(out@ =~= chars@);
    out
}

/// Where the first `c` of `chars` at or after `from` stands, or
/// `chars.len()` where none does.
pub(crate) fn find(chars: &Vec<char>, from: usize, c: char) -> (at: usize)
    requires
        from <= chars.len(),
    ensures
        from <= at <= chars.len(),
        at == from + first_index(chars@.skip(from as int), c),
{
    let mut at: usize = from;
    while at < chars.len() && chars[at] != c
        invariant
            from <= at <= chars.len(),
            forall|j: int| from <= j < at ==> chars[j] != c,
        decreases chars.len() - at,
    {
        at += 1;
    }
    proof {
        lemma_first_index_is(chars@.skip(from as int), c, at - from);
    }
    at
}

/// The lines of `text`.
pub fn lines(text: &str) -> (lines: Vec<String>)
    ensures
        texts(lines@) == lines_of(text@),
{
    split(text, None)
}

/// The first `limit` lines of `text`, or all of them where it has no more.
/// Reads `text` no further than the last line that it returns.
pub fn leading_lines(text: &str, limit: usize) -> (lines: Vec<String>)
    ensures
        texts(lines@) == at_most(lines_of(text@), limit as int),
{
    split(text, Some(limit))
}

/// The lines of `text`, up to `limit` of them where there is a limit.
fn split(text: &str, limit: Option<usize>) -> (lines: Vec<String>)
    ensures
        texts(lines@) == match limit {
            Some(n) => at_most(lines_of(text@), n as int),
            None => lines_of(text@),
        },
{
    let mut lines: Vec<String> = Vec::new();
    if limit == Some(0usize) {
        assert(texts(lines@) =~= at_most(lines_of(text@), 0));
        return lines;
    }
    let mut line: Vec<char> = Vec::new();
    let ghost mut start: int = 0;
    assert(text@.skip(0) =~= text@);
    assert(texts(lines@) + lines_of(text@) =~= lines_of(text@));
    for c in rest: text.chars()
        invariant
            rest.seq() == text@,
            0 <= start <= rest.index() <= text@.len(),
            line@ == text@.subrange(start, rest.index()),
            forall|j: int| 0 <= j < line.len() ==> line[j] != '\n',
            limit is Some ==> lines.len() < limit->0,
            lines_of(text@) == texts(lines@) + lines_of(text@.skip(start)),
    {
        if c == '\n' {
            let ghost tail = text@.skip(start);
            let ghost end = rest.index() - start;
            let ghost whole = line@;
            let ghost before = texts(lines@);
            proof {
                assert forall|j: int| 0 <= j < end implies tail[j] != '\n' by {
                    assert(tail[j] == line[j]);
                }
                lemma_lines_of_broken(tail, end);
                assert(tail.take(end) =~= whole);
                assert(tail.skip(end + 1) =~= text@.skip(rest.index() + 1));
            }
            if line.len() > 0 && line[line.len() - 1] == '\r' {
                line.pop();
            }
            assert(line@ =~= without_cr(whole));
            lines.push(text_of(&line));
            line.clear();
            proof {
                start = rest.index() + 1;
                assert(texts(lines@) =~= before.push(without_cr(whole)));
                assert(lines_of(text@) =~= texts(lines@) + lines_of(text@.skip(start)));
                assert(line@ =~= text@.subrange(start, rest.index() + 1));
            }
            if limit == Some(lines.len()) {
                assert(texts(lines@) =~= at_most(lines_of(text@), lines.len() as int));
                return lines;
            }
        } else {
            line.push(c);
            assert(line@ =~= text@.subrange(start, rest.index() + 1));
        }
    }
    proof {
        assert(text@.skip(start) =~= line@);
        lemma_lines_of_unbroken(line@);
    }
    if line.len() > 0 {
        let ghost before = texts(lines@);
        lines.push(text_of(&line));
        assert(texts(lines@) =~= before.push(line@));
    }
    assert(texts(lines@) =~= lines_of(text@));
    lines
}

} // verus!
