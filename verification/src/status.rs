//! Completion status of an assignment.

use vstd::prelude::*;

verus! {

/// Where an assignment stands: not yet done, done but unmarked, or marked.
/// An assignment's status is `Marked` exactly while it holds a mark.
#[derive(Clone, Copy, Debug, PartialEq, Eq, Structural, Hash)]
pub enum Status {
    /// The assignment is incomplete.
    Incomplete,
    /// The assignment is complete and the mark is pending.
    Complete,
    /// The assignment is complete and marked.
    Marked,
}

/// Why a status change was rejected.
#[derive(Clone, Copy, Debug, PartialEq, Eq, Structural)]
pub enum StatusError {
    /// The assignment holds a mark, so its status must be `Marked`.
    NotMarked,
    /// The assignment holds no mark, so its status must not be `Marked`.
    Marked,
}

impl Default for Status {
    /// A fresh assignment starts out incomplete.
    fn default() -> (r: Status)
        ensures
            r == Status::Incomplete,
    {
        Status::Incomplete
    }
}

} // verus!
