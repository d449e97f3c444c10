//! A checked command line, `<program> <file> <code> <keyword> [replacement]`,
//! and the run that it asks for.

use vstd::prelude::*;
use crate::engine::{do_action, lemma_run, match_count, Outcome};
use crate::error::ErrMessage;
use crate::operator::{operator_of, set_operator, substitute, Operator};
use crate::text::{range_eq, texts, to_chars, to_lower, to_upper};

verus! {

/// Where the file's path stands among the arguments.
pub const PATH: usize = 1;

/// Where the operation code stands.
pub const CODE: usize = 2;

/// Where the keyword stands.
pub const KEYWORD: usize = 3;

/// Where the replacement stands, if there is one.
pub const REPLACEMENT: usize = 4;

/// A path that ends in `.txt`.
pub open spec fn is_txt_path(path: Seq<char>) -> bool {
    path.len() >= 4 && path.subrange(path.len() - 4, path.len() as int) == ".txt"@
}

/// A command line that names a file, an operation and a keyword, and, for
/// `Replace`, a replacement.
pub open spec fn is_complete(args: Seq<Seq<char>>) -> bool {
    args.len() > KEYWORD && (operator_of(args[CODE as int]) == Operator::Replace ==> args.len()
        > REPLACEMENT)
}

/// A command line that can be run: complete, with a known operation code and
/// a `.txt` file.
pub open spec fn is_accepted(args: Seq<Seq<char>>) -> bool {
    &&& is_complete(args)
    &&& operator_of(args[CODE as int]) != Operator::Invalid
    &&& is_txt_path(args[PATH as int])
}

/// What a checked command line holds.
pub struct Command {
    pub operator: Operator,
    pub arguments: Seq<Seq<char>>,
}

impl Command {
    /// The path of the file to work on.
    pub open spec fn path(self) -> Seq<char> {
        self.arguments[PATH as int]
    }

    /// The keyword to look for.
    pub open spec fn keyword(self) -> Seq<char> {
        self.arguments[KEYWORD as int]
    }

    /// The replacement, where the command line holds one.
    pub open spec fn to_keyword(self) -> Option<Seq<char>> {
        if self.arguments.len() > REPLACEMENT {
            Some(self.arguments[REPLACEMENT as int])
        } else {
            None
        }
    }

    /// The operation is the one that the code names, and the command line
    /// can be run.
    pub open spec fn valid(self) -> bool {
        is_accepted(self.arguments) && self.operator == operator_of(self.arguments[CODE as int])
    }
}

/// A command line that has passed every check.
#[derive(Debug)]
pub struct Maggedik {
    operator: Operator,
    arguments: Vec<String>,
}

impl View for Maggedik {
    type V = Command;

    closed spec fn view(&self) -> Command {
        Command { operator: self.operator, arguments: texts(self.arguments@) }
    }
}

/// Whether the path ends in `.txt`.
pub fn has_txt_extension(path: &str) -> (b: bool)
    ensures
        b == is_txt_path(path@),
{
    let chars = to_chars(path);
    let txt = to_chars(".txt");
    proof {
        reveal_strlit(".txt");
    }
    let n: usize = chars.len();
    n >= 4 && range_eq(&chars, n - 4, n, &txt)
}

impl Maggedik {
    #[verifier::type_invariant]
    spec fn checked(&self) -> bool {
        self@.valid()
    }

    /// Checks a command line.
    ///
    /// A command line that stops before the operation code is refused as too
    /// short; then an unknown operation code is refused; then a file that is
    /// not a `.txt` file; and last a command line without a keyword, or
    /// without a replacement for `Replace`, is refused as too short.
    pub fn new(arguments: Vec<String>) -> (r: Result<Maggedik, ErrMessage>)
        ensures
            match r {
                Ok(m) => {
                    &&& is_accepted(texts(arguments@))
                    &&& m@.arguments == texts(arguments@)
                    &&& m@.valid()
                },
                Err(e) => {
                    let args = texts(arguments@);
                    if args.len() <= CODE {
                        e.is_syntax()
                    } else if operator_of(args[CODE as int]) == Operator::Invalid {
                        e.is_op_code()
                    } else if !is_txt_path(args[PATH as int]) {
                        e.is_extension()
                    } else {
                        !is_complete(args) && e.is_syntax()
                    }
                },
            },
    {
        if arguments.len() <= CODE {
            return Err(ErrMessage::syntax());
        }
        let op = set_operator(&arguments[CODE]);
        if op == Operator::Invalid {
            return Err(ErrMessage::op_code());
        }
        if !has_txt_extension(arguments[PATH].as_str()) {
            return Err(ErrMessage::extension());
        }
        if arguments.len() <= KEYWORD || (op == Operator::Replace && arguments.len() <= REPLACEMENT) {
            return Err(ErrMessage::syntax());
        }
        Ok(Maggedik { operator: op, arguments })
    }

    /// The operation to run.
    pub fn operator(&self) -> (op: Operator)
        ensures
            op == self@.operator,
            self@.valid(),
    {
        proof {
            use_type_invariant(self);
        }
        self.operator
    }

    /// The path of the file to work on.
    pub fn source(&self) -> (path: &String)
        ensures
            path@ == self@.path(),
            self@.valid(),
    {
        proof {
            use_type_invariant(self);
        }
        &self.arguments[PATH]
    }

    /// The keyword to look for.
    pub fn keyword(&self) -> (kw: &String)
        ensures
            kw@ == self@.keyword(),
            self@.valid(),
    {
        proof {
            use_type_invariant(self);
        }
        &self.arguments[KEYWORD]
    }

    /// Runs the operation of the command line over the lines of its file.
    pub fn process(&self, lines: &Vec<String>) -> (r: Result<Outcome, ErrMessage>)
        ensures
            self@.valid(),
            r is Ok,
            r.unwrap().is_run(
                self@.operator,
                texts(lines@),
                self@.keyword(),
                substitute(self@.operator, self@.keyword(), self@.to_keyword()),
            ),
            r.unwrap().report@.total == match_count(texts(lines@), self@.keyword()),
            self@.operator == Operator::Find ==> r.unwrap().rewritten is None,
            self@.operator != Operator::Find ==> r.unwrap().rewritten is Some
                && r.unwrap().rewritten.unwrap()@.len() == lines@.len(),
    {
        proof {
            use_type_invariant(self);
        }
        let r = match self.operator {
            Operator::Find => Ok(self.find(lines)),
            Operator::Replace => self.replace(lines),
            Operator::Uppercase => Ok(self.uppercase(lines)),
            Operator::Lowercase => Ok(self.lowercase(lines)),
            Operator::Delete => Ok(self.delete(lines)),
            Operator::NewLine => Ok(self.new_line(lines)),
            Operator::Invalid => Err(ErrMessage::op_code()),
        };
        proof {
            lemma_run(
                r.unwrap(),
                self@.operator,
                texts(lines@),
                self@.keyword(),
                substitute(self@.operator, self@.keyword(), self@.to_keyword()),
            );
        }
        r
    }

    /// Lists the lines in which the keyword occurs; nothing is rewritten.
    pub fn find(&self, lines: &Vec<String>) -> (out: Outcome)
        ensures
            out.is_run(Operator::Find, texts(lines@), self@.keyword(), None),
            out.rewritten is None,
    {
        proof {
            use_type_invariant(self);
        }
        do_action(Operator::Find, lines, self.arguments[KEYWORD].as_str(), None).unwrap()
    }

    /// Puts the replacement in place of the keyword. Fails where the command
    /// line holds no replacement.
    pub fn replace(&self, lines: &Vec<String>) -> (r: Result<Outcome, ErrMessage>)
        ensures
            match r {
                Ok(out) => self@.to_keyword() is Some && out.is_run(
                    Operator::Replace,
                    texts(lines@),
                    self@.keyword(),
                    self@.to_keyword(),
                ),
                Err(e) => self@.to_keyword() is None && e.is_syntax(),
            },
    {
        proof {
            use_type_invariant(self);
        }
        if self.arguments.len() <= REPLACEMENT {
            return Err(ErrMessage::syntax());
        }
        do_action(
            Operator::Replace,
            lines,
            self.arguments[KEYWORD].as_str(),
            Some(self.arguments[REPLACEMENT].as_str()),
        )
    }

    /// Puts the keyword in upper case.
    pub fn uppercase(&self, lines: &Vec<String>) -> (out: Outcome)
        ensures
            out.is_run(
                Operator::Uppercase,
                texts(lines@),
                self@.keyword(),
                Some(to_upper(self@.keyword())),
            ),
    {
        proof {
            use_type_invariant(self);
        }
        do_action(Operator::Uppercase, lines, self.arguments[KEYWORD].as_str(), None).unwrap()
    }

    /// Puts the keyword in lower case.
    pub fn lowercase(&self, lines: &Vec<String>) -> (out: Outcome)
        ensures
            out.is_run(
                Operator::Lowercase,
                texts(lines@),
                self@.keyword(),
                Some(to_lower(self@.keyword())),
            ),
    {
        proof {
            use_type_invariant(self);
        }
        do_action(Operator::Lowercase, lines, self.arguments[KEYWORD].as_str(), None).unwrap()
    }

    /// Takes the keyword out and leaves the whitespace around it.
    pub fn delete(&self, lines: &Vec<String>) -> (out: Outcome)
        ensures
            out.is_run(
                Operator::Delete,
                texts(lines@),
                self@.keyword(),
                Some(Seq::<char>::empty()),
            ),
    {
        proof {
            use_type_invariant(self);
        }
        do_action(Operator::Delete, lines, self.arguments[KEYWORD].as_str(), None).unwrap()
    }

    /// Breaks the line behind the keyword.
    pub fn new_line(&self, lines: &Vec<String>) -> (out: Outcome)
        ensures
            out.is_run(
                Operator::NewLine,
                texts(lines@),
                self@.keyword(),
                Some(self@.keyword().push('\n')),
            ),
    {
        proof {
            use_type_invariant(self);
        }
        do_action(Operator::NewLine, lines, self.arguments[KEYWORD].as_str(), None).unwrap()
    }
}

} // verus!
