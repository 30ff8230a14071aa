//! A plain error with a static message, for callers that only need to
//! report why a value was rejected.

use vstd::prelude::*;

verus! {

/// An error carrying a static message.
#[derive(Debug, Clone, Copy, PartialEq, Eq)]
pub struct InvalidError {
    pub msg: &'static str,
}

impl InvalidError {
    /// Wrap a message.
    pub fn with_msg(msg: &'static str) -> (r: InvalidError)
        ensures
            r.msg@ == msg@,
    {
        InvalidError { msg }
    }
}

} // verus!
