//! The two ways a keyword is looked for in a line.
//!
//! A line *matches* a keyword when the keyword occurs anywhere in it, inside a
//! longer word or not. A line is *rewritten* word by word: the line is cut at
//! ASCII whitespace, and only a word that equals the keyword as a whole is
//! exchanged. The two rules differ on purpose: `concatenate` matches `cat`
//! and is left as it is by every rewrite.

use vstd::prelude::*;
use crate::text::{is_ascii_space, is_space, push_chars, range_eq};

verus! {

/// `kw` stands in `line` at position `i`.
pub open spec fn occurs_at(line: Seq<char>, kw: Seq<char>, i: int) -> bool {
    0 <= i && i + kw.len() <= line.len() && line.subrange(i, i + kw.len()) == kw
}

/// The matching rule: `kw` occurs somewhere in `line`.
pub open spec fn contains(line: Seq<char>, kw: Seq<char>) -> bool {
    exists|i: int| occurs_at(line, kw, i)
}

/// The number of characters before the first whitespace of `s`, or before its
/// end: the length of the word that `s` begins with.
pub open spec fn word_len(s: Seq<char>) -> nat
    decreases s.len(),
{
    if s.len() == 0 || is_space(s[0]) {
        0
    } else {
        1 + word_len(s.skip(1))
    }
}

/// A text that can stand as one word of a line: not empty and free of
/// whitespace.
pub open spec fn is_word(w: Seq<char>) -> bool {
    w.len() > 0 && forall|k: int| 0 <= k < w.len() ==> !is_space(#[trigger] w[k])
}

/// A word of `s` begins at position `i` and is `n` characters long: a
/// stretch without whitespace that is not empty, with whitespace or an end of
/// the line on either side.
pub open spec fn word_at(s: Seq<char>, i: int, n: int) -> bool {
    &&& 0 <= i && 0 < n && i + n <= s.len()
    &&& forall|k: int| i <= k < i + n ==> !is_space(#[trigger] s[k])
    &&& i == 0 || is_space(s[i - 1])
    &&& i + n == s.len() || is_space(s[i + n])
}

/// One of the words of `s`, cut at whitespace, equals `w`.
pub open spec fn has_word(s: Seq<char>, w: Seq<char>) -> bool {
    exists|i: int| #[trigger] word_at(s, i, w.len() as int) && s.subrange(i, i + w.len()) == w
}

/// The same, found by going through the line word by word.
spec fn scans_word(s: Seq<char>, w: Seq<char>) -> bool
    decreases s.len(),
    via scans_word_decreases
{
    if s.len() == 0 {
        false
    } else if is_space(s[0]) {
        scans_word(s.skip(1), w)
    } else {
        let n = word_len(s) as int;
        s.take(n) == w || scans_word(s.skip(n), w)
    }
}

#[via_fn]
proof fn scans_word_decreases(s: Seq<char>, w: Seq<char>) {
    lemma_word_len(s);
}

/// The rewriting rule: `s` with every word that equals `kw` exchanged for
/// `rep`. Whitespace and all other words stay where they are, character for
/// character.
pub open spec fn rewrite_words(s: Seq<char>, kw: Seq<char>, rep: Seq<char>) -> Seq<char>
    decreases s.len(),
    via rewrite_words_decreases
{
    if s.len() == 0 {
        s
    } else if is_space(s[0]) {
        seq![s[0]] + rewrite_words(s.skip(1), kw, rep)
    } else {
        let n = word_len(s) as int;
        let word = s.take(n);
        (if word == kw { rep } else { word }) + rewrite_words(s.skip(n), kw, rep)
    }
}

#[via_fn]
proof fn rewrite_words_decreases(s: Seq<char>, kw: Seq<char>, rep: Seq<char>) {
    lemma_word_len(s);
}

/// What `word_len` measures: it stays within the text, no character before it
/// is whitespace, and it stops at whitespace or at the end. It is zero only
/// where the text is empty or begins with whitespace.
pub proof fn lemma_word_len(s: Seq<char>)
    ensures
        word_len(s) <= s.len(),
        forall|k: int| 0 <= k < word_len(s) ==> !is_space(#[trigger] s[k]),
        word_len(s) == s.len() || is_space(s[word_len(s) as int]),
        s.len() > 0 && !is_space(s[0]) ==> word_len(s) >= 1,
    decreases s.len(),
{
    if s.len() == 0 || is_space(s[0]) {
    } else {
        let t = s.skip(1);
        lemma_word_len(t);
        assert forall|k: int| 0 <= k < word_len(s) implies !is_space(#[trigger] s[k]) by {
            if k > 0 {
                assert(s[k] == t[k - 1]);
            }
        }
    }
}

/// A text that is empty or begins with whitespace: what may follow a word.
pub open spec fn starts_gap(x: Seq<char>) -> bool {
    x.len() == 0 || is_space(x[0])
}

/// A word found by going through the line is a word of the line.
proof fn lemma_scan_finds_word(s: Seq<char>, w: Seq<char>)
    requires
        scans_word(s, w),
    ensures
        has_word(s, w),
    decreases s.len(),
{
    lemma_word_len(s);
    if is_space(s[0]) {
        let t = s.skip(1);
        lemma_scan_finds_word(t, w);
        let i = choose|i: int| #[trigger]
            word_at(t, i, w.len() as int) && t.subrange(i, i + w.len()) == w;
        assert(word_at(s, i + 1, w.len() as int)) by {
            assert forall|k: int| i + 1 <= k < i + 1 + w.len() implies !is_space(
                #[trigger] s[k],
            ) by {
                assert(s[k] == t[k - 1]);
            }
        }
        assert(s.subrange(i + 1, i + 1 + w.len()) =~= t.subrange(i, i + w.len()));
    } else {
        let n = word_len(s) as int;
        if s.take(n) == w {
            assert(word_at(s, 0, w.len() as int));
        } else {
            let x = s.skip(n);
            lemma_scan_finds_word(x, w);
            let i = choose|i: int| #[trigger]
                word_at(x, i, w.len() as int) && x.subrange(i, i + w.len()) == w;
            assert(word_at(s, n + i, w.len() as int)) by {
                assert forall|k: int| n + i <= k < n + i + w.len() implies !is_space(
                    #[trigger] s[k],
                ) by {
                    assert(s[k] == x[k - n]);
                }
            }
            assert(s.subrange(n + i, n + i + w.len()) =~= x.subrange(i, i + w.len()));
        }
    }
}

/// A word of a line occurs in the line: whatever the rewriting rule finds,
/// the matching rule finds too.
pub proof fn lemma_word_occurs(s: Seq<char>, w: Seq<char>)
    requires
        has_word(s, w),
    ensures
        contains(s, w),
{
    let i = choose|i: int| #[trigger]
        word_at(s, i, w.len() as int) && s.subrange(i, i + w.len()) == w;
    assert(occurs_at(s, w, i));
}

proof fn lemma_rewrite_without_scan(s: Seq<char>, kw: Seq<char>, rep: Seq<char>)
    requires
        !scans_word(s, kw),
    ensures
        rewrite_words(s, kw, rep) == s,
    decreases s.len(),
{
    lemma_word_len(s);
    if s.len() == 0 {
    } else if is_space(s[0]) {
        lemma_rewrite_without_scan(s.skip(1), kw, rep);
    } else {
        let n = word_len(s) as int;
        lemma_rewrite_without_scan(s.skip(n), kw, rep);
    }
}

/// A line without a word equal to the keyword is rewritten to itself, also
/// where the keyword occurs inside a longer word.
pub proof fn lemma_rewrite_without_word(s: Seq<char>, kw: Seq<char>, rep: Seq<char>)
    requires
        !has_word(s, kw),
    ensures
        rewrite_words(s, kw, rep) == s,
{
    if scans_word(s, kw) {
        lemma_scan_finds_word(s, kw);
    }
    lemma_rewrite_without_scan(s, kw, rep);
}

/// Whitespace is rewritten to itself.
pub proof fn lemma_rewrite_gap(s: Seq<char>, kw: Seq<char>, rep: Seq<char>)
    requires
        forall|k: int| 0 <= k < s.len() ==> is_space(#[trigger] s[k]),
    ensures
        rewrite_words(s, kw, rep) == s,
{
    assert forall|i: int| !(#[trigger] word_at(s, i, kw.len() as int)) by {
        if word_at(s, i, kw.len() as int) {
            assert(is_space(s[i]));
        }
    }
    lemma_rewrite_without_word(s, kw, rep);
}

/// A line in which the keyword does not occur is rewritten to itself.
pub proof fn lemma_rewrite_without_match(s: Seq<char>, kw: Seq<char>, rep: Seq<char>)
    requires
        !contains(s, kw),
    ensures
        rewrite_words(s, kw, rep) == s,
{
    if has_word(s, kw) {
        lemma_word_occurs(s, kw);
    }
    lemma_rewrite_without_word(s, kw, rep);
}

/// Exchanging the keyword for itself changes nothing.
pub proof fn lemma_rewrite_same(s: Seq<char>, kw: Seq<char>)
    ensures
        rewrite_words(s, kw, kw) == s,
    decreases s.len(),
{
    lemma_word_len(s);
    if s.len() == 0 {
    } else if is_space(s[0]) {
        lemma_rewrite_same(s.skip(1), kw);
    } else {
        let n = word_len(s) as int;
        lemma_rewrite_same(s.skip(n), kw);
    }
}

/// Characters that are no whitespace, put before a text, lengthen the word
/// that the text begins with by their number.
pub proof fn lemma_word_len_concat(w: Seq<char>, x: Seq<char>)
    requires
        forall|k: int| 0 <= k < w.len() ==> !is_space(#[trigger] w[k]),
    ensures
        word_len(w + x) == w.len() + word_len(x),
    decreases w.len(),
{
    if w.len() == 0 {
    } else {
        let t = w.skip(1);
        lemma_word_len_concat(t, x);
        assert((w + x).skip(1) =~= t + x);
    }
}

/// A word followed by whitespace or by nothing is rewritten on its own, and
/// what follows it is rewritten on its own.
pub proof fn lemma_rewrite_word_first(w: Seq<char>, x: Seq<char>, kw: Seq<char>, rep: Seq<char>)
    requires
        is_word(w),
        starts_gap(x),
    ensures
        rewrite_words(w + x, kw, rep) == (if w == kw {
            rep
        } else {
            w
        }) + rewrite_words(x, kw, rep),
{
    let s = w + x;
    lemma_word_len_concat(w, x);
    let n = word_len(s) as int;
    assert(s.take(n) =~= w);
    assert(s.skip(n) =~= x);
}

/// A line cut between two words is rewritten piece by piece: where the first
/// piece ends in whitespace or the second begins with it (or one of them is
/// empty), the rewritten line is the rewritten pieces put together.
pub proof fn lemma_rewrite_split(a: Seq<char>, b: Seq<char>, kw: Seq<char>, rep: Seq<char>)
    requires
        a.len() == 0 || is_space(a.last()) || starts_gap(b),
    ensures
        rewrite_words(a + b, kw, rep) == rewrite_words(a, kw, rep) + rewrite_words(b, kw, rep),
    decreases a.len(),
{
    let s = a + b;
    lemma_word_len(a);
    if a.len() == 0 {
        assert(rewrite_words(a, kw, rep) + rewrite_words(b, kw, rep) =~= rewrite_words(
            b,
            kw,
            rep,
        ));
    } else if is_space(a[0]) {
        let t = a.skip(1);
        assert(s.skip(1) =~= t + b);
        lemma_rewrite_split(t, b, kw, rep);
        assert(seq![a[0]] + (rewrite_words(t, kw, rep) + rewrite_words(b, kw, rep)) =~= (seq![
            a[0],
        ] + rewrite_words(t, kw, rep)) + rewrite_words(b, kw, rep));
    } else {
        let n = word_len(a) as int;
        let w = a.take(n);
        let x = a.skip(n);
        let put = if w == kw {
            rep
        } else {
            w
        };
        assert(is_word(w));
        assert(s =~= w + (x + b));
        assert(starts_gap(x + b));
        lemma_rewrite_word_first(w, x + b, kw, rep);
        lemma_rewrite_split(x, b, kw, rep);
        assert(put + (rewrite_words(x, kw, rep) + rewrite_words(b, kw, rep)) =~= (put
            + rewrite_words(x, kw, rep)) + rewrite_words(b, kw, rep));
    }
}

/// Around a word of the line the rewrite goes piece by piece: what stands
/// before the word is rewritten on its own, the word is exchanged if it
/// equals the keyword and kept if not, and what stands behind it is rewritten
/// on its own.
pub proof fn lemma_rewrite_at_word(s: Seq<char>, i: int, n: int, kw: Seq<char>, rep: Seq<char>)
    requires
        word_at(s, i, n),
    ensures
        rewrite_words(s, kw, rep) == rewrite_words(s.take(i), kw, rep) + (if s.subrange(i, i + n)
            == kw {
            rep
        } else {
            s.subrange(i, i + n)
        }) + rewrite_words(s.skip(i + n), kw, rep),
{
    let a = s.take(i);
    let w = s.subrange(i, i + n);
    let x = s.skip(i + n);
    assert(s =~= a + (w + x));
    assert(is_word(w));
    lemma_rewrite_split(a, w + x, kw, rep);
    lemma_rewrite_word_first(w, x, kw, rep);
    let put = if w == kw {
        rep
    } else {
        w
    };
    assert(rewrite_words(a, kw, rep) + (put + rewrite_words(x, kw, rep)) =~= rewrite_words(
        a,
        kw,
        rep,
    ) + put + rewrite_words(x, kw, rep));
}

proof fn lemma_round_trip_scan(s: Seq<char>, k: Seq<char>, r: Seq<char>)
    requires
        is_word(r),
        !scans_word(s, r),
    ensures
        rewrite_words(rewrite_words(s, k, r), r, k) == s,
    decreases s.len(),
{
    lemma_word_len(s);
    let there = rewrite_words(s, k, r);
    if s.len() == 0 {
    } else if is_space(s[0]) {
        let t = s.skip(1);
        lemma_round_trip_scan(t, k, r);
        assert(there.skip(1) =~= rewrite_words(t, k, r));
    } else {
        let n = word_len(s) as int;
        let w = s.take(n);
        let x = s.skip(n);
        let put = if w == k {
            r
        } else {
            w
        };
        let y = rewrite_words(x, k, r);
        lemma_round_trip_scan(x, k, r);
        assert(is_word(w));
        assert(starts_gap(y)) by {
            lemma_word_len(x);
        }
        lemma_rewrite_word_first(put, y, r, k);
    }
}

/// There and back: exchange `k` for `r` in a line, then `r` for `k`, and the
/// line is as it was, provided that `r` can stand as a word (it is not empty
/// and holds no whitespace) and that no word of the line was `r` to begin
/// with.
pub proof fn lemma_rewrite_round_trip(s: Seq<char>, k: Seq<char>, r: Seq<char>)
    requires
        is_word(r),
        !has_word(s, r),
    ensures
        rewrite_words(rewrite_words(s, k, r), r, k) == s,
{
    if scans_word(s, r) {
        lemma_scan_finds_word(s, r);
    }
    lemma_round_trip_scan(s, k, r);
}

/// Whether `kw` occurs in `line`, as a word or inside one.
pub fn line_contains(line: &Vec<char>, kw: &Vec<char>) -> (b: bool)
    ensures
        b == contains(line@, kw@),
{
    if kw.len() > line.len() {
        return false;
    }
    let last: usize = line.len() - kw.len();
    let mut i: usize = 0;
    loop
        invariant
            last == line.len() - kw.len(),
            i <= last,
            forall|j: int| 0 <= j < i ==> !occurs_at(line@, kw@, j),
        decreases last - i,
    {
        if range_eq(line, i, i + kw.len(), kw) {
            assert(occurs_at(line@, kw@, i as int));
            return true;
        }
        if i == last {
            return false;
        }
        i += 1;
    }
}

/// The position after the word that begins at `from`: the first whitespace
/// at or after `from`, or the end of the line.
pub fn word_end(line: &Vec<char>, from: usize) -> (to: usize)
    requires
        from <= line.len(),
    ensures
        to == from + word_len(line@.skip(from as int)),
        from <= to <= line.len(),
{
    let mut j: usize = from;
    while j < line.len() && !is_ascii_space(line[j])
        invariant
            from <= j <= line.len(),
            word_len(line@.skip(from as int)) == (j - from) + word_len(line@.skip(j as int)),
        decreases line.len() - j,
    {
        assert(line@.skip(j as int).skip(1) =~= line@.skip(j + 1));
        j += 1;
    }
    j
}

/// Rewrites one line: every word equal to `kw` becomes `rep`.
pub fn rewrite_line(line: &Vec<char>, kw: &Vec<char>, rep: &str) -> (out: String)
    ensures
        out@ == rewrite_words(line@, kw@, rep@),
{
    let mut out = String::new();
    let mut i: usize = 0;
    assert(line@.skip(0) =~= line@);
    while i < line.len()
        invariant
            i <= line.len(),
            out@ + rewrite_words(line@.skip(i as int), kw@, rep@) == rewrite_words(
                line@,
                kw@,
                rep@,
            ),
        decreases line.len() - i,
    {
        let ghost rest = line@.skip(i as int);
        let ghost before = out@;
        if is_ascii_space(line[i]) {
            out.push(line[i]);
            proof {
                assert(rest.skip(1) =~= line@.skip(i + 1));
                assert(out@ + rewrite_words(rest.skip(1), kw@, rep@) =~= before + (seq![rest[0]]
                    + rewrite_words(rest.skip(1), kw@, rep@)));
            }
            i += 1;
        } else {
            let j: usize = word_end(line, i);
            proof {
                lemma_word_len(rest);
                assert(rest.take(j - i) =~= line@.subrange(i as int, j as int));
                assert(rest.skip(j - i) =~= line@.skip(j as int));
            }
            if range_eq(line, i, j, kw) {
                out.append(rep);
            } else {
                push_chars(&mut out, line, i, j);
            }
            proof {
                let piece = if rest.take(j - i) == kw@ {
                    rep@
                } else {
                    rest.take(j - i)
                };
                assert(out@ + rewrite_words(rest.skip(j - i), kw@, rep@) =~= before + (piece
                    + rewrite_words(rest.skip(j - i), kw@, rep@)));
            }
            i = j;
        }
    }
    out
}

} // verus!
