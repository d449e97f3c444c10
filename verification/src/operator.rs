//! The six operations and their one- or two-letter codes.

use vstd::prelude::*;
use crate::text::{lowercase, same_text, to_lower, to_upper, uppercase};

verus! {

/// What a run does with the keyword. `Invalid` stands for a code that names no
/// operation; no run is made with it.
#[derive(Clone, Copy, Debug, PartialEq, Eq, Structural)]
pub enum Operator {
    Find,
    Replace,
    Uppercase,
    Lowercase,
    Delete,
    NewLine,
    Invalid,
}

/// The operation that a code names: `f`, `rp`, `uc`, `lc`, `d` or `nl`.
pub open spec fn operator_of(code: Seq<char>) -> Operator {
    if code == "f"@ {
        Operator::Find
    } else if code == "rp"@ {
        Operator::Replace
    } else if code == "uc"@ {
        Operator::Uppercase
    } else if code == "lc"@ {
        Operator::Lowercase
    } else if code == "d"@ {
        Operator::Delete
    } else if code == "nl"@ {
        Operator::NewLine
    } else {
        Operator::Invalid
    }
}

/// The text that takes the place of each word equal to the keyword: the given
/// replacement, the keyword in upper or lower case, nothing, or the keyword
/// with a line feed behind it. There is none where nothing is rewritten, and
/// none for a replacement that was not given.
pub open spec fn substitute(op: Operator, kw: Seq<char>, to_kw: Option<Seq<char>>) -> Option<
    Seq<char>,
> {
    match op {
        Operator::Replace => to_kw,
        Operator::Uppercase => Some(to_upper(kw)),
        Operator::Lowercase => Some(to_lower(kw)),
        Operator::Delete => Some(Seq::empty()),
        Operator::NewLine => Some(kw.push('\n')),
        Operator::Find => None,
        Operator::Invalid => None,
    }
}

/// The text of an optional string.
pub open spec fn text_of(s: Option<&str>) -> Option<Seq<char>> {
    match s {
        Some(t) => Some(t@),
        None => None,
    }
}

impl Operator {
    /// The text of the operation's name.
    pub open spec fn name_text(self) -> Seq<char> {
        match self {
            Operator::Find => "Find"@,
            Operator::Replace => "Replace"@,
            Operator::Uppercase => "Uppercase"@,
            Operator::Lowercase => "Lowercase"@,
            Operator::Delete => "Delete"@,
            Operator::NewLine => "NewLine"@,
            Operator::Invalid => "Invalid"@,
        }
    }

    /// The operation's name as the report prints it.
    pub fn name(self) -> (s: &'static str)
        ensures
            s@ == self.name_text(),
    {
        match self {
            Operator::Find => "Find",
            Operator::Replace => "Replace",
            Operator::Uppercase => "Uppercase",
            Operator::Lowercase => "Lowercase",
            Operator::Delete => "Delete",
            Operator::NewLine => "NewLine",
            Operator::Invalid => "Invalid",
        }
    }
}

/// Reads an operation code.
pub fn set_operator(operator: &String) -> (op: Operator)
    ensures
        op == operator_of(operator@),
{
    let code = operator.as_str();
    if same_text(code, "f") {
        Operator::Find
    } else if same_text(code, "rp") {
        Operator::Replace
    } else if same_text(code, "uc") {
        Operator::Uppercase
    } else if same_text(code, "lc") {
        Operator::Lowercase
    } else if same_text(code, "d") {
        Operator::Delete
    } else if same_text(code, "nl") {
        Operator::NewLine
    } else {
        Operator::Invalid
    }
}

/// Computes the text that the operation puts in place of the keyword.
pub fn replacement(op: Operator, keyword: &str, to_keyword: Option<&str>) -> (rep: Option<String>)
    ensures
        match rep {
            Some(r) => substitute(op, keyword@, text_of(to_keyword)) == Some(r@),
            None => substitute(op, keyword@, text_of(to_keyword)) is None,
        },
{
    match op {
        Operator::Replace => match to_keyword {
            Some(t) => Some(t.to_owned()),
            None => None,
        },
        Operator::Uppercase => Some(uppercase(keyword)),
        Operator::Lowercase => Some(lowercase(keyword)),
        Operator::Delete => Some(String::new()),
        Operator::NewLine => {
            let mut r = keyword.to_owned();
            r.push('\n');
            Some(r)
        },
        Operator::Find => None,
        Operator::Invalid => None,
    }
}

} // verus!
