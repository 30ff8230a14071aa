//! Integer percentages: values in the range 0 to 100.

use vstd::prelude::*;

verus! {

/// Why a percent was rejected; carries the offending value.
#[derive(Clone, Copy, Debug, PartialEq, Eq, Structural)]
pub enum Error {
    /// A value above 100.
    OutOfRange(u8),
}

/// A percentage: an integer within the range 0 to 100.
#[derive(Clone, Copy, Debug, PartialEq, Eq, Structural, PartialOrd, Ord, Hash)]
pub struct Percent {
    pub value: u8,
}

/// The running average of a sequence of percent values, folded from the left
/// starting at zero, rounding down at each step.
pub open spec fn average_fold(s: Seq<Percent>) -> int
    decreases s.len(),
{
    if s.len() == 0 {
        0
    } else {
        (average_fold(s.drop_last()) + s.last().value) / 2
    }
}

impl Percent {
    /// Validity: the value is at most 100.
    pub open spec fn wf(self) -> bool {
        self.value <= 100
    }

    /// Create a percent; fails exactly when the value is above 100.
    pub fn new(value: u8) -> (r: Result<Percent, Error>)
        ensures
            r is Ok <==> value <= 100,
            value <= 100 ==> r == Result::<Percent, Error>::Ok(Percent { value }),
            value > 100 ==> r == Result::<Percent, Error>::Err(Error::OutOfRange(value)),
    {
        if value > 100 {
            Err(Error::OutOfRange(value))
        } else {
            Ok(Percent { value })
        }
    }

    /// The percent's value.
    pub fn value(&self) -> (r: u8)
        ensures
            r == self.value,
    {
        self.value
    }

    /// Zero percent.
    pub fn zero() -> (r: Percent)
        ensures
            r.value == 0,
            r.wf(),
    {
        Percent { value: 0 }
    }

    /// The average of two percentages, rounding down.
    pub fn average(self, other: Percent) -> (r: Percent)
        requires
            self.wf(),
            other.wf(),
        ensures
            r.value == (self.value + other.value) / 2,
            r.wf(),
    {
        Percent { value: (self.value + other.value) / 2 }
    }

    /// The average of many percentages: [`Percent::average`] folded over the
    /// values from the left, starting at zero.
    pub fn average_many(percents: &Vec<Percent>) -> (r: Percent)
        requires
            forall|i: int| 0 <= i < percents@.len() ==> (#[trigger] percents@[i]).wf(),
        ensures
            r.value == average_fold(percents@),
            r.wf(),
    {
        let mut acc = Percent::zero();
        let n = percents.len();
        let mut i: usize = 0;
        while i < n
            invariant
                n == percents@.len(),
                i <= n,
                forall|q: int| 0 <= q < n ==> (#[trigger] percents@[q]).wf(),
                acc.wf(),
                acc.value == average_fold(percents@.subrange(0, i as int)),
            decreases n - i,
        {
            proof {
                assert(percents@.subrange(0, i as int + 1).drop_last() =~= percents@.subrange(
                    0,
                    i as int,
                ));
                assert(percents@.subrange(0, i as int + 1).last() == percents@[i as int]);
            }
            acc = acc.average(percents[i]);
            i += 1;
        }
        proof {
            assert(percents@.subrange(0, n as int) =~= percents@);
        }
        acc
    }
}

} // verus!
