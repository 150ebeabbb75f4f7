//! Helpers on character sequences.

use vstd::prelude::*;

verus! {

/// Whether `char::is_whitespace` holds of `c`.
pub uninterp spec fn white_space(c: char) -> bool;

/// Calls `char::is_whitespace`. The contract only gives the answer its name.
#[verifier::external_body]
fn is_whitespace(c: char) -> (yes: bool)
    ensures
        yes == white_space(c),
{
    c.is_whitespace()
}

/// `text` without its leading white space.
pub open spec fn trim_start(text: Seq<char>) -> Seq<char>
    decreases text.len(),
{
    if text.len() > 0 && white_space(text.first()) {
        trim_start(text.drop_first())
    } else {
        text
    }
}

/// `text` without its trailing white space.
pub open spec fn trim_end(text: Seq<char>) -> Seq<char>
    decreases text.len(),
{
    if text.len() > 0 && white_space(text.last()) {
        trim_end(text.drop_last())
    } else {
        text
    }
}

/// `text` without the white space at either end.
pub open spec fn trimmed(text: Seq<char>) -> Seq<char> {
    trim_end(trim_start(text))
}

/// Dropping a run of leading white space does not change what `trim_start` gives.
proof fn lemma_trim_start_skips(text: Seq<char>, from: int)
    requires
        0 <= from <= text.len(),
        forall|k: int| 0 <= k < from ==> white_space(text[k]),
    ensures
        trim_start(text) == trim_start(text.subrange(from, text.len() as int)),
    decreases from,
{
    if from == 0 {
        assert(text.subrange(0, text.len() as int) =~= text);
    } else {
        let rest = text.drop_first();
        lemma_trim_start_skips(rest, from - 1);
        assert(rest.subrange(from - 1, rest.len() as int) =~= text.subrange(
            from,
            text.len() as int,
        ));
    }
}

/// Dropping a run of trailing white space does not change what `trim_end` gives.
proof fn lemma_trim_end_skips(text: Seq<char>, to: int)
    requires
        0 <= to <= text.len(),
        forall|k: int| to <= k < text.len() ==> white_space(text[k]),
    ensures
        trim_end(text) == trim_end(text.subrange(0, to)),
    decreases text.len() - to,
{
    if to == text.len() {
        assert(text.subrange(0, to) =~= text);
    } else {
        let rest = text.drop_last();
        lemma_trim_end_skips(rest, to);
        assert(rest.subrange(0, to) =~= text.subrange(0, to));
    }
}

/// `String::push` appends one character.
pub assume_specification[ String::push ](text: &mut String, c: char)
    ensures
        final(text)@ == old(text)@.push(c),
;

/// A copy of `text` without the white space at either end.
pub fn trim(text: &str) -> (inner: String)
    ensures
        inner@ == trimmed(text@),
{
    let mut inner = String::new();
    let mut held = String::new();
    let mut started = false;
    let ghost mut from: int = 0;
    for c in it: text.chars()
        invariant
            it.seq() == text@,
            0 <= from <= it.index(),
            forall|k: int| 0 <= k < from ==> white_space(text@[k]),
            forall|k: int| 0 <= k < held@.len() ==> white_space(held@[k]),
            inner@ + held@ == text@.subrange(from, it.index() as int),
            !started ==> from == it.index() && inner@.len() == 0 && held@.len() == 0,
            started ==> inner@.len() > 0 && !white_space(inner@[0]) && !white_space(inner@.last()),
    {
        let ghost at = it.index() as int;
        let ghost seen = inner@ + held@;
        assert(text@.subrange(from, at + 1) =~= seen.push(c));
        if is_whitespace(c) {
            if started {
                held.push(c);
            } else {
                proof {
                    from = at + 1;
                }
            }
        } else {
            inner.append(held.as_str());
            inner.push(c);
            held = String::new();
            started = true;
        }
    }
    proof {
        let tail = text@.subrange(from, text@.len() as int);
        lemma_trim_start_skips(text@, from);
        lemma_trim_end_skips(tail, inner@.len() as int);
    }
    inner
}

/// `line` without the carriage return at its end, if it has one.
pub open spec fn strip_return(line: Seq<char>) -> Seq<char> {
    if line.len() > 0 && line.last() == '\r' {
        line.drop_last()
    } else {
        line
    }
}

/// The lines that `text` has completed by a line feed, and what follows
/// the last line feed. A carriage return before the line feed belongs to
/// the line ending.
pub open spec fn scan_lines(text: Seq<char>) -> (Seq<Seq<char>>, Seq<char>)
    decreases text.len(),
{
    if text.len() == 0 {
        (Seq::empty(), Seq::empty())
    } else {
        let (done, open) = scan_lines(text.drop_last());
        if text.last() == '\n' {
            (done.push(strip_return(open)), Seq::empty())
        } else {
            (done, open.push(text.last()))
        }
    }
}

/// The lines of `text`, without their line endings. The last line need
/// not be completed by a line feed.
pub open spec fn lines_in(text: Seq<char>) -> Seq<Seq<char>> {
    let (done, open) = scan_lines(text);
    if open.len() > 0 {
        done.push(open)
    } else {
        done
    }
}

/// The text of a run of lines: each line followed by a line feed.
pub open spec fn joined_lines(lines: Seq<Seq<char>>) -> Seq<char>
    decreases lines.len(),
{
    if lines.len() == 0 {
        Seq::empty()
    } else {
        joined_lines(lines.drop_last()) + lines.last() + "\n"@
    }
}

/// A line that holds no line feed and does not end in a carriage return.
pub open spec fn clean_line(line: Seq<char>) -> bool {
    &&& forall|i: int| 0 <= i < line.len() ==> line[i] != '\n'
    &&& line.len() > 0 ==> line.last() != '\r'
}

/// Every line of the run is clean.
pub open spec fn clean_lines(lines: Seq<Seq<char>>) -> bool {
    forall|i: int| 0 <= i < lines.len() ==> clean_line(#[trigger] lines[i])
}

/// Text without a line feed, behind completed lines, stays open.
proof fn lemma_scan_open(text: Seq<char>, line: Seq<char>)
    requires
        forall|i: int| 0 <= i < line.len() ==> line[i] != '\n',
    ensures
        scan_lines(text + line) == (scan_lines(text).0, scan_lines(text).1 + line),
    decreases line.len(),
{
    if line.len() > 0 {
        let early = line.drop_last();
        assert((text + line).drop_last() =~= text + early);
        lemma_scan_open(text, early);
    }
}

/// Splitting what was joined gives the lines back, as long as they are clean.
pub proof fn lemma_lines_in_joined(lines: Seq<Seq<char>>)
    requires
        clean_lines(lines),
    ensures
        scan_lines(joined_lines(lines)) == (lines, Seq::<char>::empty()),
        lines_in(joined_lines(lines)) == lines,
    decreases lines.len(),
{
    reveal_strlit("\n");
    if lines.len() > 0 {
        let early = lines.drop_last();
        let last = lines.last();
        lemma_lines_in_joined(early);
        lemma_scan_open(joined_lines(early), last);
        let text = joined_lines(lines);
        assert(text.drop_last() =~= joined_lines(early) + last);
    }
}

/// The lines of `text`, without their line endings.
pub fn split_lines(text: &str) -> (lines: Vec<String>)
    ensures
        lines.deep_view() == lines_in(text@),
{
    let mut lines: Vec<String> = Vec::new();
    let mut line = String::new();
    let mut held = false;
    for c in it: text.chars()
        invariant
            it.seq() == text@,
            scan_lines(text@.take(it.index() as int)) == (
                lines.deep_view(),
                if held {
                    line@.push('\r')
                } else {
                    line@
                },
            ),
            !held ==> line@.len() == 0 || line@.last() != '\r',
    {
        let ghost at = it.index() as int;
        assert(text@.take(at + 1).drop_last() =~= text@.take(at));
        if c == '\n' {
            proof {
                if held {
                    assert(line@.push('\r').drop_last() =~= line@);
                }
            }
            lines.push(line);
            line = String::new();
            held = false;
        } else {
            if held {
                line.push('\r');
            }
            if c == '\r' {
                held = true;
            } else {
                line.push(c);
                held = false;
            }
        }
    }
    assert(text@.take(text@.len() as int) =~= text@);
    if held {
        line.push('\r');
    }
    if !line.as_str().is_empty() {
        lines.push(line);
    }
    lines
}

} // verus!
