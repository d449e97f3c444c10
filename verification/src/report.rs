//! The report of a run: which operation ran, how many lines matched, and
//! where.

use vstd::prelude::*;
use crate::operator::Operator;
use crate::lines::{joined, push_lines};
use crate::text::{as_nats, decimal, push_decimal, texts};

verus! {

/// What a report says.
pub struct Report {
    /// The operation that ran.
    pub op_type: Operator,
    /// The number of lines that matched.
    pub total: nat,
    /// One entry per matching line, in file order.
    pub contents: Seq<Seq<char>>,
}

/// The entry for a match in line `n`, counted from one.
pub open spec fn detail_line(n: nat) -> Seq<char> {
    "at line: "@ + decimal(n)
}

/// The report on a run of `op` that matched the lines numbered `matches`.
pub open spec fn report_of(op: Operator, matches: Seq<nat>) -> Report {
    Report {
        op_type: op,
        total: matches.len(),
        contents: Seq::new(matches.len(), |k: int| detail_line(matches[k])),
    }
}

/// The report as it is shown: the count, then the entries one per line, or a
/// line that says that nothing was found, then the operation.
pub open spec fn rendered(r: Report) -> Seq<char> {
    "total matches : "@ + decimal(r.total) + seq!['\n'] + (if r.total > 0 {
        joined(r.contents)
    } else {
        "no result found..\n"@
    }) + "Result type : "@ + r.op_type.name_text() + seq!['\n']
}

/// The report of a run.
#[derive(Debug)]
pub struct FindOutput {
    op_type: Operator,
    total: usize,
    contents: Vec<String>,
}

impl View for FindOutput {
    type V = Report;

    closed spec fn view(&self) -> Report {
        Report {
            op_type: self.op_type,
            total: self.total as nat,
            contents: texts(self.contents@),
        }
    }
}

impl FindOutput {
    /// Builds the report from the operation and the numbers of the matching
    /// lines.
    pub fn new(op_type: Operator, matches: &Vec<usize>) -> (out: FindOutput)
        ensures
            out@ == report_of(op_type, as_nats(matches@)),
    {
        let mut contents: Vec<String> = Vec::new();
        let mut k: usize = 0;
        while k < matches.len()
            invariant
                k <= matches.len(),
                contents.len() == k,
                forall|j: int| 0 <= j < k ==> (#[trigger] contents@[j])@ == detail_line(
                    matches@[j] as nat,
                ),
            decreases matches.len() - k,
        {
            let mut entry = "at line: ".to_owned();
            push_decimal(&mut entry, matches[k]);
            contents.push(entry);
            k += 1;
        }
        let out = FindOutput { op_type, total: matches.len(), contents };
        assert(out@.contents =~= report_of(op_type, as_nats(matches@)).contents);
        out
    }

    /// The operation that ran.
    pub fn op_type(&self) -> (op: Operator)
        ensures
            op == self@.op_type,
    {
        self.op_type
    }

    /// The number of lines that matched.
    pub fn total(&self) -> (n: usize)
        ensures
            n == self@.total,
    {
        self.total
    }

    /// One entry per matching line, in file order.
    pub fn contents(&self) -> (c: &Vec<String>)
        ensures
            texts(c@) == self@.contents,
    {
        &self.contents
    }

    /// The report as text, ready to be shown.
    pub fn render(&self) -> (s: String)
        ensures
            s@ == rendered(self@),
    {
        let mut s = "total matches : ".to_owned();
        push_decimal(&mut s, self.total);
        s.push('\n');
        if self.total > 0 {
            push_lines(&mut s, &self.contents);
        } else {
            s.append("no result found..\n");
        }
        s.append("Result type : ");
        s.append(self.op_type.name());
        s.push('\n');
        s
    }
}

} // verus!
