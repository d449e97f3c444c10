//! A file's content as lines, and lines as a file's content.
//!
//! Reading cuts the content at every line feed and drops the line feed,
//! together with a carriage return that stands right before it. A last line
//! needs no line feed. Writing puts a line feed behind every line.

use vstd::prelude::*;
use crate::text::{push_chars, texts, to_chars};

verus! {

/// The number of characters before the first line feed of `s`, or before its
/// end.
pub open spec fn line_len(s: Seq<char>) -> nat
    decreases s.len(),
{
    if s.len() == 0 || s[0] == '\n' {
        0
    } else {
        1 + line_len(s.skip(1))
    }
}

/// The first line of a content that is not empty, without its line end.
pub open spec fn first_line(s: Seq<char>) -> Seq<char> {
    let n = line_len(s) as int;
    if 0 < n < s.len() && s[n - 1] == '\r' {
        s.take(n - 1)
    } else {
        s.take(n)
    }
}

/// What follows the first line and its line feed.
pub open spec fn after_first_line(s: Seq<char>) -> Seq<char> {
    let n = line_len(s) as int;
    if n < s.len() {
        s.skip(n + 1)
    } else {
        Seq::empty()
    }
}

/// The lines of a content, in order. An empty content has no lines; an empty
/// line between two line feeds is a line.
pub open spec fn lines_of(s: Seq<char>) -> Seq<Seq<char>>
    decreases s.len(),
    via lines_of_decreases
{
    if s.len() == 0 {
        Seq::empty()
    } else {
        seq![first_line(s)] + lines_of(after_first_line(s))
    }
}

#[via_fn]
proof fn lines_of_decreases(s: Seq<char>) {
    lemma_line_len(s);
}

/// The lines written out one after the other, each with a line feed behind
/// it.
pub open spec fn joined(lines: Seq<Seq<char>>) -> Seq<char>
    decreases lines.len(),
{
    if lines.len() == 0 {
        Seq::empty()
    } else {
        joined(lines.drop_last()) + lines.last().push('\n')
    }
}

/// A text that comes back from a file as the one line that it went in as: it
/// holds no line feed and does not end in a carriage return.
pub open spec fn is_line(line: Seq<char>) -> bool {
    &&& forall|k: int| 0 <= k < line.len() ==> #[trigger] line[k] != '\n'
    &&& line.len() == 0 || line.last() != '\r'
}

/// A content that reading and writing leave as it is: every line, the last
/// one too, ends in a line feed, and no carriage return stands before one.
pub open spec fn is_plain(s: Seq<char>) -> bool {
    &&& s.len() == 0 || s.last() == '\n'
    &&& forall|k: int| 0 < k < s.len() && #[trigger] s[k] == '\n' ==> s[k - 1] != '\r'
}

/// What `line_len` measures: it stays within the content, no character before
/// it is a line feed, and it stops at a line feed or at the end.
pub proof fn lemma_line_len(s: Seq<char>)
    ensures
        line_len(s) <= s.len(),
        forall|k: int| 0 <= k < line_len(s) ==> #[trigger] s[k] != '\n',
        line_len(s) == s.len() || s[line_len(s) as int] == '\n',
    decreases s.len(),
{
    if s.len() == 0 || s[0] == '\n' {
    } else {
        let t = s.skip(1);
        lemma_line_len(t);
        assert forall|k: int| 0 <= k < line_len(s) implies #[trigger] s[k] != '\n' by {
            if k > 0 {
                assert(s[k] == t[k - 1]);
            }
        }
    }
}

/// Characters that are no line feeds, put before a content, lengthen its
/// first line by their number.
pub proof fn lemma_line_len_concat(a: Seq<char>, b: Seq<char>)
    requires
        forall|k: int| 0 <= k < a.len() ==> #[trigger] a[k] != '\n',
    ensures
        line_len(a + b) == a.len() + line_len(b),
    decreases a.len(),
{
    if a.len() == 0 {
    } else {
        let t = a.skip(1);
        lemma_line_len_concat(t, b);
        assert((a + b).skip(1) =~= t + b);
    }
}

/// Written out, a list of lines begins with its first line.
pub proof fn lemma_joined_first(line: Seq<char>, rest: Seq<Seq<char>>)
    ensures
        joined(seq![line] + rest) == line.push('\n') + joined(rest),
    decreases rest.len(),
{
    let all = seq![line] + rest;
    if rest.len() == 0 {
        assert(all.drop_last() =~= rest);
    } else {
        assert(all.drop_last() =~= seq![line] + rest.drop_last());
        lemma_joined_first(line, rest.drop_last());
    }
}

/// Lines that are written and read again come back as they were.
pub proof fn lemma_lines_of_joined(lines: Seq<Seq<char>>)
    requires
        forall|i: int| 0 <= i < lines.len() ==> is_line(#[trigger] lines[i]),
    ensures
        lines_of(joined(lines)) == lines,
    decreases lines.len(),
{
    if lines.len() == 0 {
    } else {
        let line = lines[0];
        let rest = lines.skip(1);
        assert(lines =~= seq![line] + rest);
        lemma_joined_first(line, rest);
        lemma_lines_of_joined(rest);
        let s = joined(lines);
        let tail = seq!['\n'] + joined(rest);
        assert(s =~= line + tail);
        lemma_line_len_concat(line, tail);
        let n = line_len(s) as int;
        assert(s.take(n) =~= line);
        assert(s.skip(n + 1) =~= joined(rest));
    }
}

/// A plain content that is read and written again comes back as it was,
/// character for character.
pub proof fn lemma_joined_lines_of(s: Seq<char>)
    requires
        is_plain(s),
    ensures
        joined(lines_of(s)) == s,
    decreases s.len(),
{
    if s.len() == 0 {
    } else {
        lemma_line_len(s);
        let n = line_len(s) as int;
        let rest = s.skip(n + 1);
        assert(is_plain(rest));
        lemma_joined_lines_of(rest);
        lemma_joined_first(s.take(n), lines_of(rest));
    }
}

/// The position of the first line feed at or after `from`, or the end of the
/// content.
pub fn line_end(chars: &Vec<char>, from: usize) -> (to: usize)
    requires
        from <= chars.len(),
    ensures
        to == from + line_len(chars@.skip(from as int)),
        from <= to <= chars.len(),
{
    let mut j: usize = from;
    while j < chars.len() && chars[j] != '\n'
        invariant
            from <= j <= chars.len(),
            line_len(chars@.skip(from as int)) == (j - from) + line_len(chars@.skip(j as int)),
        decreases chars.len() - j,
    {
        assert(chars@.skip(j as int).skip(1) =~= chars@.skip(j + 1));
        j += 1;
    }
    j
}

/// Cuts a file's content into its lines.
pub fn split_lines(content: &str) -> (lines: Vec<String>)
    ensures
        texts(lines@) == lines_of(content@),
{
    let chars = to_chars(content);
    let mut lines: Vec<String> = Vec::new();
    let mut i: usize = 0;
    assert(chars@.skip(0) =~= chars@);
    while i < chars.len()
        invariant
            i <= chars.len(),
            texts(lines@) + lines_of(chars@.skip(i as int)) == lines_of(chars@),
        decreases chars.len() - i,
    {
        let ghost rest = chars@.skip(i as int);
        let ghost before = texts(lines@);
        let j: usize = line_end(&chars, i);
        let stop: usize = if i < j && j < chars.len() && chars[j - 1] == '\r' {
            j - 1
        } else {
            j
        };
        let next: usize = if j < chars.len() {
            j + 1
        } else {
            j
        };
        let mut line = String::new();
        push_chars(&mut line, &chars, i, stop);
        lines.push(line);
        proof {
            assert(line@ =~= first_line(rest));
            assert(after_first_line(rest) =~= chars@.skip(next as int));
            assert(before.push(line@) + lines_of(chars@.skip(next as int)) =~= before + (seq![
                first_line(rest),
            ] + lines_of(after_first_line(rest))));
        }
        i = next;
    }
    lines
}

/// Appends every line to `out`, each with a line feed behind it.
pub fn push_lines(out: &mut String, lines: &Vec<String>)
    ensures
        final(out)@ == old(out)@ + joined(texts(lines@)),
{
    let mut i: usize = 0;
    while i < lines.len()
        invariant
            i <= lines.len(),
            out@ == old(out)@ + joined(texts(lines@).take(i as int)),
        decreases lines.len() - i,
    {
        out.append(lines[i].as_str());
        out.push('\n');
        assert(texts(lines@).take(i + 1).drop_last() =~= texts(lines@).take(i as int));
        i += 1;
    }
    assert(texts(lines@).take(i as int) =~= texts(lines@));
}

} // verus!
