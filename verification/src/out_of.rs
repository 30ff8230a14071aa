//! Out-of marks: a score out of a maximum, as a pair of integers.

use vstd::prelude::*;

verus! {

/// Why an out-of mark was rejected; carries both offending values.
#[derive(Clone, Copy, Debug, PartialEq, Eq, Structural)]
pub enum Error {
    /// The score is greater than the maximum.
    MarkTooLarge(u16, u16),
}

/// A score of `mark` out of `out_of`, valid when `mark <= out_of`.
#[derive(Clone, Copy, Debug, PartialEq, Eq, Structural)]
pub struct OutOf {
    pub mark: u16,
    pub out_of: u16,
}

impl OutOf {
    /// Validity: the score does not exceed the maximum.
    pub open spec fn wf(self) -> bool {
        self.mark <= self.out_of
    }

    /// Create an out-of mark; fails exactly when `mark > out_of`.
    pub fn new(mark: u16, out_of: u16) -> (r: Result<OutOf, Error>)
        ensures
            r is Ok <==> mark <= out_of,
            mark <= out_of ==> r == Result::<OutOf, Error>::Ok(OutOf { mark, out_of }),
            mark > out_of ==> r == Result::<OutOf, Error>::Err(Error::MarkTooLarge(mark, out_of)),
    {
        if mark > out_of {
            Err(Error::MarkTooLarge(mark, out_of))
        } else {
            Ok(OutOf { mark, out_of })
        }
    }

    /// The score.
    pub fn mark(&self) -> (r: u16)
        ensures
            r == self.mark,
    {
        self.mark
    }

    /// The maximum.
    pub fn out_of(&self) -> (r: u16)
        ensures
            r == self.out_of,
    {
        self.out_of
    }
}

} // verus!
