//! One run over the lines of a file: which lines match the keyword, and, for
//! an operation that rewrites, what every line becomes.

use vstd::prelude::*;
use crate::error::ErrMessage;
use crate::operator::{replacement, substitute, text_of, Operator};
use crate::report::{report_of, FindOutput};
use crate::lines::{is_plain, joined, lemma_joined_lines_of, lines_of, push_lines};
use crate::text::{as_nats, texts, to_chars};
use crate::words::{
    contains, has_word, is_word, lemma_rewrite_round_trip, lemma_rewrite_without_match,
    line_contains, rewrite_line, rewrite_words,
};

verus! {

/// The numbers, counted from one and in ascending order, of the lines in
/// which the keyword occurs.
pub open spec fn match_set(lines: Seq<Seq<char>>, kw: Seq<char>) -> Seq<nat>
    decreases lines.len(),
{
    if lines.len() == 0 {
        Seq::empty()
    } else {
        let before = match_set(lines.drop_last(), kw);
        if contains(lines.last(), kw) {
            before.push(lines.len())
        } else {
            before
        }
    }
}

/// What a line becomes: a line in which the keyword occurs is rewritten word
/// by word, any other line is kept as it is.
pub open spec fn rewritten_line(line: Seq<char>, kw: Seq<char>, rep: Seq<char>) -> Seq<char> {
    if contains(line, kw) {
        rewrite_words(line, kw, rep)
    } else {
        line
    }
}

/// What the file becomes: every line has one entry, at the place where it
/// stood.
pub open spec fn rewritten(lines: Seq<Seq<char>>, kw: Seq<char>, rep: Seq<char>) -> Seq<
    Seq<char>,
> {
    Seq::new(lines.len(), |i: int| rewritten_line(lines[i], kw, rep))
}

/// The number of lines in which the keyword occurs.
pub open spec fn match_count(lines: Seq<Seq<char>>, kw: Seq<char>) -> nat {
    lines.filter(|line: Seq<char>| contains(line, kw)).len()
}

/// The match set has one entry for each line in which the keyword occurs,
/// however often and in whatever place it occurs there.
pub proof fn lemma_match_set_len(lines: Seq<Seq<char>>, kw: Seq<char>)
    ensures
        match_set(lines, kw).len() == match_count(lines, kw),
    decreases lines.len(),
{
    reveal(Seq::filter);
    if lines.len() > 0 {
        lemma_match_set_len(lines.drop_last(), kw);
    }
}

/// The match set holds line numbers of the file only, each of a line in
/// which the keyword occurs, in strictly ascending order, and it leaves out
/// no such line.
pub proof fn lemma_match_set(lines: Seq<Seq<char>>, kw: Seq<char>)
    ensures
        forall|k: int|
            0 <= k < match_set(lines, kw).len() ==> {
                let n = #[trigger] match_set(lines, kw)[k];
                1 <= n <= lines.len() && contains(lines[n - 1], kw)
            },
        forall|j: int, k: int|
            0 <= j < k < match_set(lines, kw).len() ==> match_set(lines, kw)[j] < match_set(
                lines,
                kw,
            )[k],
        forall|i: int|
            0 <= i < lines.len() && contains(#[trigger] lines[i], kw) ==> match_set(
                lines,
                kw,
            ).contains((i + 1) as nat),
    decreases lines.len(),
{
    if lines.len() > 0 {
        let front = lines.drop_last();
        let before = match_set(front, kw);
        let all = match_set(lines, kw);
        lemma_match_set(front, kw);
        assert forall|k: int| 0 <= k < all.len() implies {
            let n = #[trigger] all[k];
            1 <= n <= lines.len() && contains(lines[n - 1], kw)
        } by {
            if k < before.len() {
                assert(front[before[k] - 1] == lines[before[k] - 1]);
            }
        }
        assert forall|i: int| 0 <= i < lines.len() && contains(
            #[trigger] lines[i],
            kw,
        ) implies all.contains((i + 1) as nat) by {
            if i < front.len() {
                assert(front[i] == lines[i]);
                let k = choose|k: int| 0 <= k < before.len() && before[k] == (i + 1) as nat;
                assert(all[k] == (i + 1) as nat);
            } else {
                assert(all[all.len() - 1] == (i + 1) as nat);
            }
        }
    }
}

/// Rewriting keeps every line in its place: the new file has as many lines
/// as the old one, the line at each place is what the old line at that place
/// became, and a line in which the keyword does not occur is unchanged.
pub proof fn lemma_rewritten_in_place(lines: Seq<Seq<char>>, kw: Seq<char>, rep: Seq<char>)
    ensures
        rewritten(lines, kw, rep).len() == lines.len(),
        forall|i: int|
            0 <= i < lines.len() ==> #[trigger] rewritten(lines, kw, rep)[i] == rewritten_line(
                lines[i],
                kw,
                rep,
            ),
        forall|i: int|
            0 <= i < lines.len() && !contains(lines[i], kw) ==> #[trigger] rewritten(
                lines,
                kw,
                rep,
            )[i] == lines[i],
{
}

/// Whether the keyword occurs in a line or not, the line becomes what the
/// word-by-word rewrite makes of it.
pub proof fn lemma_rewritten_line(line: Seq<char>, kw: Seq<char>, rep: Seq<char>)
    ensures
        rewritten_line(line, kw, rep) == rewrite_words(line, kw, rep),
{
    if !contains(line, kw) {
        lemma_rewrite_without_match(line, kw, rep);
    }
}

/// Where the keyword occurs in no line, nothing matches and the rewritten
/// file is the file.
pub proof fn lemma_no_match(lines: Seq<Seq<char>>, kw: Seq<char>, rep: Seq<char>)
    requires
        forall|i: int| 0 <= i < lines.len() ==> !contains(#[trigger] lines[i], kw),
    ensures
        match_set(lines, kw) == Seq::<nat>::empty(),
        rewritten(lines, kw, rep) == lines,
    decreases lines.len(),
{
    if lines.len() > 0 {
        lemma_no_match(lines.drop_last(), kw, rep);
    }
}

/// A plain file in which the keyword occurs nowhere is written back as it
/// was read, character for character, whatever the operation.
pub proof fn lemma_no_match_keeps_content(content: Seq<char>, kw: Seq<char>, rep: Seq<char>)
    requires
        is_plain(content),
        forall|i: int|
            0 <= i < lines_of(content).len() ==> !contains(#[trigger] lines_of(content)[i], kw),
    ensures
        joined(rewritten(lines_of(content), kw, rep)) == content,
{
    lemma_no_match(lines_of(content), kw, rep);
    lemma_joined_lines_of(content);
}

/// There and back: replace `k` by `r` in a file, then `r` by `k` in the
/// result. Every line is then as it was at first, except possibly a line that
/// already had `r` among its words. `r` must be able to stand as a word: not
/// empty, and without whitespace.
pub proof fn lemma_replace_round_trip(lines: Seq<Seq<char>>, k: Seq<char>, r: Seq<char>)
    requires
        is_word(r),
    ensures
        rewritten(rewritten(lines, k, r), r, k).len() == lines.len(),
        forall|i: int|
            0 <= i < lines.len() && !has_word(lines[i], r) ==> #[trigger] rewritten(
                rewritten(lines, k, r),
                r,
                k,
            )[i] == lines[i],
{
    assert forall|i: int| 0 <= i < lines.len() && !has_word(lines[i], r) implies #[trigger] rewritten(
        rewritten(lines, k, r),
        r,
        k,
    )[i] == lines[i] by {
        let there = rewritten_line(lines[i], k, r);
        lemma_rewritten_line(lines[i], k, r);
        lemma_rewritten_line(there, r, k);
        lemma_rewrite_round_trip(lines[i], k, r);
    }
}

/// What a run hands back: the report, and the new lines of the file where the
/// operation rewrites it.
#[derive(Debug)]
pub struct Outcome {
    pub report: FindOutput,
    pub rewritten: Option<Vec<String>>,
}

impl Outcome {
    /// The outcome of a run of `op` over `lines` that puts `rep` in place of
    /// the keyword, or rewrites nothing where there is no `rep`.
    pub open spec fn is_run(
        self,
        op: Operator,
        lines: Seq<Seq<char>>,
        kw: Seq<char>,
        rep: Option<Seq<char>>,
    ) -> bool {
        &&& self.report@ == report_of(op, match_set(lines, kw))
        &&& match self.rewritten {
            Some(buffer) => rep is Some && texts(buffer@) == rewritten(lines, kw, rep.unwrap()),
            None => rep is None,
        }
    }
}

/// What every run keeps to. The report counts the lines in which the keyword
/// occurs, once each. A run that rewrites hands back as many lines as it
/// took, each at its place, and a line in which the keyword does not occur
/// as it was; a run that does not rewrite hands back no line at all.
pub proof fn lemma_run(
    out: Outcome,
    op: Operator,
    lines: Seq<Seq<char>>,
    kw: Seq<char>,
    rep: Option<Seq<char>>,
)
    requires
        out.is_run(op, lines, kw, rep),
    ensures
        out.report@.op_type == op,
        out.report@.total == match_count(lines, kw),
        out.report@.contents.len() == out.report@.total,
        rep is None <==> out.rewritten is None,
        out.rewritten matches Some(buffer) ==> {
            &&& buffer@.len() == lines.len()
            &&& forall|i: int|
                0 <= i < lines.len() ==> (#[trigger] buffer@[i])@ == rewritten_line(
                    lines[i],
                    kw,
                    rep.unwrap(),
                )
            &&& forall|i: int|
                0 <= i < lines.len() && !contains(lines[i], kw) ==> (#[trigger] buffer@[i])@
                    == lines[i]
        },
{
    lemma_match_set_len(lines, kw);
    match out.rewritten {
        Some(buffer) => {
            assert(texts(buffer@).len() == rewritten(lines, kw, rep.unwrap()).len());
            assert forall|i: int| 0 <= i < lines.len() implies (#[trigger] buffer@[i])@
                == rewritten_line(lines[i], kw, rep.unwrap()) by {
                assert(texts(buffer@)[i] == rewritten(lines, kw, rep.unwrap())[i]);
            }
        },
        None => {},
    }
}

/// Runs `operator` with `keyword` over the lines of a file.
///
/// The report counts and lists the lines in which the keyword occurs. `Find`
/// rewrites nothing. Every other operation hands back all lines, in order: in
/// a line in which the keyword occurs, each word equal to the keyword is
/// exchanged; the rest are copied. A run fails for a code that names no
/// operation, and for `Replace` without a replacement.
pub fn do_action(
    operator: Operator,
    lines: &Vec<String>,
    keyword: &str,
    to_keyword: Option<&str>,
) -> (r: Result<Outcome, ErrMessage>)
    ensures
        match r {
            Ok(out) => {
                &&& operator != Operator::Invalid
                &&& operator == Operator::Replace ==> to_keyword is Some
                &&& out.is_run(
                    operator,
                    texts(lines@),
                    keyword@,
                    substitute(operator, keyword@, text_of(to_keyword)),
                )
                &&& out.report@.total == match_count(texts(lines@), keyword@)
                &&& operator == Operator::Find ==> out.rewritten is None
                &&& operator != Operator::Find ==> out.rewritten is Some
                    && out.rewritten.unwrap()@.len() == lines@.len()
            },
            Err(e) => if operator == Operator::Invalid {
                e.is_op_code()
            } else {
                operator == Operator::Replace && to_keyword is None && e.is_syntax()
            },
        },
{
    if operator == Operator::Invalid {
        return Err(ErrMessage::op_code());
    }
    let rep = replacement(operator, keyword, to_keyword);
    if operator != Operator::Find && rep.is_none() {
        return Err(ErrMessage::syntax());
    }
    let kw = to_chars(keyword);
    let ghost all = texts(lines@);
    let mut matches: Vec<usize> = Vec::new();
    let mut buffer: Vec<String> = Vec::new();
    let mut i: usize = 0;
    while i < lines.len()
        invariant
            i <= lines.len(),
            all == texts(lines@),
            kw@ == keyword@,
            as_nats(matches@) == match_set(all.take(i as int), kw@),
            match rep {
                Some(r) => texts(buffer@) == rewritten(all.take(i as int), kw@, r@),
                None => true,
            },
        decreases lines.len() - i,
    {
        let ghost done = all.take(i as int);
        let ghost next = all.take(i + 1);
        let ghost old_buffer = buffer@;
        let line = to_chars(lines[i].as_str());
        let found = line_contains(&line, &kw);
        if found {
            matches.push(i + 1);
        }
        match &rep {
            Some(r) => {
                let entry = if found {
                    rewrite_line(&line, &kw, r.as_str())
                } else {
                    lines[i].clone()
                };
                buffer.push(entry);
                assert(texts(buffer@) =~= rewritten(next, kw@, r@)) by {
                    assert forall|j: int| 0 <= j < buffer@.len() implies texts(buffer@)[j]
                        == rewritten(next, kw@, r@)[j] by {
                        if j < i {
                            assert(texts(old_buffer)[j] == rewritten(done, kw@, r@)[j]);
                        }
                    }
                }
            },
            None => {},
        }
        assert(next.drop_last() =~= done);
        i += 1;
    }
    assert(all.take(i as int) =~= all);
    proof {
        lemma_match_set_len(all, kw@);
    }
    let report = FindOutput::new(operator, &matches);
    let rewritten = match rep {
        Some(_) => Some(buffer),
        None => None,
    };
    Ok(Outcome { report, rewritten })
}

/// The bytes of the rewritten file, as text: the lines in order, each with a
/// line feed behind it.
pub fn serialize(buffer: &Vec<String>) -> (content: String)
    ensures
        content@ == joined(texts(buffer@)),
{
    let mut content = String::new();
    push_lines(&mut content, buffer);
    content
}

} // verus!
