//! The error reported when a line of text cannot be parsed into an
//! assignment.

use vstd::prelude::*;

verus! {

/// Why parsing an assignment failed; carries a description of the fault.
#[derive(Debug, Clone, PartialEq)]
pub struct AssignmentParseError {
    pub msg: String,
}

impl AssignmentParseError {
    /// Wrap a message.
    pub fn new(msg: &str) -> (r: AssignmentParseError)
        ensures
            r.msg@ == msg@,
    {
        AssignmentParseError { msg: msg.to_owned() }
    }

    /// The message.
    pub fn message(&self) -> (r: &str)
        ensures
            r@ == self.msg@,
    {
        self.msg.as_str()
    }
}

} // verus!
