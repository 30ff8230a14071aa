//! Marks: the grade awarded for an assignment, under one of several
//! grading schemes, each with its own validity rule.

use vstd::prelude::*;

verus! {

/// A grade under one of three grading schemes. The enum variants can be
/// written directly; [`Mark::percent`], [`Mark::letter`] and [`Mark::out_of`]
/// construct only valid marks, and [`Mark::check_valid`] re-validates a mark
/// that was written directly.
#[derive(Clone, Copy, Debug, PartialEq, Eq, Structural)]
pub enum Mark {
    /// A percentage; valid when the value is at most 100.
    Percent(u32),
    /// A letter grade; valid when the letter is an uppercase ASCII letter.
    Letter(char),
    /// `OutOf(a, b)` is `a` marks scored out of `b`; valid when `a <= b`.
    OutOf(u32, u32),
}

/// Why a mark was rejected; carries the offending value.
#[derive(Clone, Copy, Debug, PartialEq, Eq, Structural)]
pub enum InvalidMarkError {
    /// A percentage above 100.
    PercentOutOfRange(u32),
    /// A letter outside 'A'..='Z'.
    LetterOutOfRange(char),
    /// An out-of mark whose numerator exceeds its denominator.
    OutOfInvalid(u32, u32),
}

impl Mark {
    /// Validity of a mark under its grading scheme.
    pub open spec fn valid(self) -> bool {
        match self {
            Mark::Percent(p) => p <= 100,
            Mark::Letter(c) => 'A' <= c && c <= 'Z',
            Mark::OutOf(a, b) => a <= b,
        }
    }

    /// The error an invalid mark is rejected with.
    pub open spec fn rejection(self) -> InvalidMarkError {
        match self {
            Mark::Percent(p) => InvalidMarkError::PercentOutOfRange(p),
            Mark::Letter(c) => InvalidMarkError::LetterOutOfRange(c),
            Mark::OutOf(a, b) => InvalidMarkError::OutOfInvalid(a, b),
        }
    }

    /// Re-validate an already constructed mark.
    pub fn check_valid(&self) -> (r: Result<(), InvalidMarkError>)
        ensures
            r is Ok <==> self.valid(),
            !self.valid() ==> r == Result::<(), InvalidMarkError>::Err(self.rejection()),
    {
        match self {
            Mark::Percent(p) => {
                if *p <= 100 {
                    Ok(())
                } else {
                    Err(InvalidMarkError::PercentOutOfRange(*p))
                }
            },
            Mark::Letter(c) => {
                if 'A' <= *c && *c <= 'Z' {
                    Ok(())
                } else {
                    Err(InvalidMarkError::LetterOutOfRange(*c))
                }
            },
            Mark::OutOf(a, b) => {
                if *a <= *b {
                    Ok(())
                } else {
                    Err(InvalidMarkError::OutOfInvalid(*a, *b))
                }
            },
        }
    }

    /// Build a valid percentage mark; fails exactly when `pct > 100`.
    pub fn percent(pct: u32) -> (r: Result<Mark, InvalidMarkError>)
        ensures
            r is Ok <==> pct <= 100,
            pct <= 100 ==> r == Result::<Mark, InvalidMarkError>::Ok(Mark::Percent(pct)),
            pct > 100 ==> r == Result::<Mark, InvalidMarkError>::Err(
                InvalidMarkError::PercentOutOfRange(pct),
            ),
    {
        if pct <= 100 {
            Ok(Mark::Percent(pct))
        } else {
            Err(InvalidMarkError::PercentOutOfRange(pct))
        }
    }

    /// Build a valid letter mark; fails exactly when the letter is not an
    /// uppercase ASCII letter.
    pub fn letter(c: char) -> (r: Result<Mark, InvalidMarkError>)
        ensures
            r is Ok <==> 'A' <= c && c <= 'Z',
            'A' <= c && c <= 'Z' ==> r == Result::<Mark, InvalidMarkError>::Ok(Mark::Letter(c)),
            !('A' <= c && c <= 'Z') ==> r == Result::<Mark, InvalidMarkError>::Err(
                InvalidMarkError::LetterOutOfRange(c),
            ),
    {
        if 'A' <= c && c <= 'Z' {
            Ok(Mark::Letter(c))
        } else {
            Err(InvalidMarkError::LetterOutOfRange(c))
        }
    }

    /// Build a valid out-of mark; fails exactly when `a > b`.
    pub fn out_of(a: u32, b: u32) -> (r: Result<Mark, InvalidMarkError>)
        ensures
            r is Ok <==> a <= b,
            a <= b ==> r == Result::<Mark, InvalidMarkError>::Ok(Mark::OutOf(a, b)),
            a > b ==> r == Result::<Mark, InvalidMarkError>::Err(
                InvalidMarkError::OutOfInvalid(a, b),
            ),
    {
        if a <= b {
            Ok(Mark::OutOf(a, b))
        } else {
            Err(InvalidMarkError::OutOfInvalid(a, b))
        }
    }
}

} // verus!
