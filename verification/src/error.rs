//! The failures that a run can end in.

use vstd::prelude::*;

verus! {

/// A failed run, with a message for the user.
#[derive(Debug)]
pub enum ErrMessage {
    /// Too few arguments were given.
    Syntax(String),
    /// The operation code names none of the six operations.
    OpCode(String),
    /// The file is not a `.txt` file.
    Other(String),
    /// The file could not be read or written.
    Io(String),
}

impl ErrMessage {
    /// The message that the failure carries.
    pub open spec fn text(&self) -> Seq<char> {
        match self {
            ErrMessage::Syntax(m) => m@,
            ErrMessage::OpCode(m) => m@,
            ErrMessage::Other(m) => m@,
            ErrMessage::Io(m) => m@,
        }
    }

    /// This is the failure for too few arguments.
    pub open spec fn is_syntax(&self) -> bool {
        self is Syntax && self.text() == "invalid syntax.."@
    }

    /// This is the failure for an unknown operation code.
    pub open spec fn is_op_code(&self) -> bool {
        self is OpCode && self.text() == "invalid operation code.."@
    }

    /// This is the failure for a file that is not a `.txt` file.
    pub open spec fn is_extension(&self) -> bool {
        self is Other && self.text() == "unsupported file extension.."@
    }

    /// The failure for too few arguments.
    pub fn syntax() -> (e: ErrMessage)
        ensures
            e.is_syntax(),
    {
        ErrMessage::Syntax("invalid syntax..".to_owned())
    }

    /// The failure for an unknown operation code.
    pub fn op_code() -> (e: ErrMessage)
        ensures
            e.is_op_code(),
    {
        ErrMessage::OpCode("invalid operation code..".to_owned())
    }

    /// The failure for a file that is not a `.txt` file.
    pub fn extension() -> (e: ErrMessage)
        ensures
            e.is_extension(),
    {
        ErrMessage::Other("unsupported file extension..".to_owned())
    }

    /// The failure for a file that could not be read or written, with the
    /// cause in words.
    pub fn io(cause: String) -> (e: ErrMessage)
        ensures
            e is Io,
            e.text() == cause@,
    {
        ErrMessage::Io(cause)
    }

    /// The message for the user.
    pub fn message(&self) -> (m: &String)
        ensures
            m@ == self.text(),
    {
        match self {
            ErrMessage::Syntax(m) => m,
            ErrMessage::OpCode(m) => m,
            ErrMessage::Other(m) => m,
            ErrMessage::Io(m) => m,
        }
    }
}

} // verus!
