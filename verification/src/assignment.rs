//! Assignments: a named, identified unit of work belonging to a class.
//!
//! An assignment carries an optional weight (its contribution to the final
//! grade of its class), an optional [`Mark`], an optional due date, and a
//! [`Status`]. The status is `Marked` exactly while a mark is held.

use vstd::prelude::*;

use crate::mark::{InvalidMarkError, Mark};
use crate::status::{Status, StatusError};

verus! {

/// Longest assignment name accepted, in characters.
pub const MAX_NAME_LEN: usize = 48;

/// Why an assignment operation was rejected; carries the offending value.
#[derive(Clone, Copy, Debug, PartialEq, Eq, Structural)]
pub enum AssignmentError {
    /// A weight above 100.
    Value(u32),
    /// A name that is empty or longer than [`MAX_NAME_LEN`]; carries the
    /// offending length.
    NameLength(usize),
    /// A builder was finished without a name.
    NoName,
    /// An invalid mark.
    Mark(InvalidMarkError),
    /// A status that disagrees with whether a mark is held.
    Status(StatusError),
}

/// A single assignment. Its `id` is unique within a tracker; uniqueness is
/// enforced by [`crate::tracker::Tracker`] and [`crate::class::Class`].
#[derive(Debug, Clone, PartialEq)]
#[verifier::ext_equal]
pub struct Assignment {
    pub id: u32,
    pub name: String,
    pub value: Option<u32>,
    pub mark: Option<Mark>,
    pub due_date: Option<i64>,
    pub status: Status,
}

/// An assignment name must be non-empty and at most [`MAX_NAME_LEN`]
/// characters long.
pub open spec fn name_ok(name: Seq<char>) -> bool {
    1 <= name.len() <= MAX_NAME_LEN
}

impl Assignment {
    /// Well-formedness: the name is within bounds, the weight (if any) is at
    /// most 100, the mark (if any) is valid, and the status is `Marked`
    /// exactly while a mark is held.
    pub open spec fn wf(self) -> bool {
        &&& name_ok(self.name@)
        &&& (self.value matches Some(v) ==> v <= 100)
        &&& (self.mark matches Some(m) ==> m.valid())
        &&& (self.status == Status::Marked <==> self.mark is Some)
    }

    /// The assignment's contribution to its class's total: its weight, or 0
    /// while no weight is set.
    pub open spec fn weight_or_zero(self) -> int {
        match self.value {
            Some(v) => v as int,
            None => 0,
        }
    }

    /// Create an assignment with the given id, name and weight, no mark and
    /// no due date. Fails exactly when the name or the weight is out of
    /// range; the name is checked first.
    pub fn new(id: u32, name: &str, weight: u32) -> (r: Result<Assignment, AssignmentError>)
        ensures
            r is Ok <==> name_ok(name@) && weight <= 100,
            r matches Ok(a) ==> a.id == id && a.name@ == name@ && a.value == Some(weight)
                && a.mark is None && a.due_date is None && a.status == Status::Incomplete
                && a.wf(),
            !name_ok(name@) ==> r == Result::<Assignment, AssignmentError>::Err(
                AssignmentError::NameLength(name@.len() as usize),
            ),
            name_ok(name@) && weight > 100 ==> r == Result::<Assignment, AssignmentError>::Err(
                AssignmentError::Value(weight),
            ),
    {
        let len: usize = name.unicode_len();
        if len == 0 || len > MAX_NAME_LEN {
            return Err(AssignmentError::NameLength(len));
        }
        if weight > 100 {
            return Err(AssignmentError::Value(weight));
        }
        Ok(Assignment {
            id,
            name: name.to_owned(),
            value: Some(weight),
            mark: None,
            due_date: None,
            status: Status::Incomplete,
        })
    }

    /// Start building an assignment with the given id.
    pub fn builder(id: u32) -> (r: AssignmentBuilder)
        ensures
            r.id == id,
            r.name is None,
            r.weight is None,
            r.mark is None,
            r.due_date is None,
    {
        AssignmentBuilder { id, name: None, weight: None, mark: None, due_date: None }
    }

    /// The assignment's id.
    pub fn id(&self) -> (r: u32)
        ensures
            r == self.id,
    {
        self.id
    }

    /// The assignment's name.
    pub fn name(&self) -> (r: &String)
        ensures
            r@ == self.name@,
    {
        &self.name
    }

    /// The assignment's weight toward its class's final grade, if one is set.
    pub fn value(&self) -> (r: Option<u32>)
        ensures
            r == self.value,
    {
        self.value
    }

    /// The assignment's mark, if one has been awarded.
    pub fn mark(&self) -> (r: Option<Mark>)
        ensures
            r == self.mark,
    {
        self.mark
    }

    /// The assignment's due date as a timestamp, if one is set.
    pub fn due_date(&self) -> (r: Option<i64>)
        ensures
            r == self.due_date,
    {
        self.due_date
    }

    /// The assignment's completion status.
    pub fn status(&self) -> (r: Status)
        ensures
            r == self.status,
    {
        self.status
    }

    /// Award a mark. Fails exactly when the mark is invalid; on success the
    /// status becomes `Marked`.
    pub fn set_mark(&mut self, mark: Mark) -> (r: Result<(), AssignmentError>)
        requires
            old(self).wf(),
        ensures
            final(self).wf(),
            r is Ok <==> mark.valid(),
            r is Ok ==> *final(self) == (Assignment {
                mark: Some(mark),
                status: Status::Marked,
                ..*old(self)
            }),
            r is Ok ==> final(self).status == Status::Marked,
            r matches Err(e) ==> *final(self) == *old(self) && e == AssignmentError::Mark(
                mark.rejection(),
            ),
    {
        if let Err(e) = mark.check_valid() {
            return Err(AssignmentError::Mark(e));
        }
        self.mark = Some(mark);
        self.status = Status::Marked;
        Ok(())
    }

    /// Clear the mark; the status falls back to `Incomplete`. Infallible.
    pub fn remove_mark(&mut self)
        requires
            old(self).wf(),
        ensures
            final(self).wf(),
            *final(self) == (Assignment {
                mark: None,
                status: Status::Incomplete,
                ..*old(self)
            }),
            final(self).status != Status::Marked,
    {
        self.mark = None;
        self.status = Status::Incomplete;
    }

    /// Set the weight. Fails exactly when the weight is above 100.
    pub fn set_value(&mut self, value: u32) -> (r: Result<(), AssignmentError>)
        requires
            old(self).wf(),
        ensures
            final(self).wf(),
            r is Ok <==> value <= 100,
            r is Ok ==> *final(self) == (Assignment { value: Some(value), ..*old(self) }),
            r matches Err(e) ==> *final(self) == *old(self) && e == AssignmentError::Value(value),
    {
        if value > 100 {
            return Err(AssignmentError::Value(value));
        }
        self.value = Some(value);
        Ok(())
    }

    /// Clear the weight. Infallible.
    pub fn remove_value(&mut self)
        requires
            old(self).wf(),
        ensures
            final(self).wf(),
            *final(self) == (Assignment { value: None, ..*old(self) }),
    {
        self.value = None;
    }

    /// Set the due date. Infallible.
    pub fn set_due_date(&mut self, due_date: i64)
        requires
            old(self).wf(),
        ensures
            final(self).wf(),
            *final(self) == (Assignment { due_date: Some(due_date), ..*old(self) }),
    {
        self.due_date = Some(due_date);
    }

    /// Clear the due date. Infallible.
    pub fn remove_due_date(&mut self)
        requires
            old(self).wf(),
        ensures
            final(self).wf(),
            *final(self) == (Assignment { due_date: None, ..*old(self) }),
    {
        self.due_date = None;
    }

    /// Set the status. Fails exactly when the new status disagrees with
    /// whether a mark is held: a marked assignment must stay `Marked`, an
    /// unmarked one must not become `Marked`.
    pub fn set_status(&mut self, status: Status) -> (r: Result<(), AssignmentError>)
        requires
            old(self).wf(),
        ensures
            final(self).wf(),
            r is Ok <==> (status == Status::Marked <==> old(self).mark is Some),
            r is Ok ==> *final(self) == (Assignment { status, ..*old(self) }),
            r is Err ==> *final(self) == *old(self),
            old(self).mark is Some && status != Status::Marked ==> r
                == Result::<(), AssignmentError>::Err(
                AssignmentError::Status(StatusError::NotMarked),
            ),
            old(self).mark is None && status == Status::Marked ==> r
                == Result::<(), AssignmentError>::Err(AssignmentError::Status(StatusError::Marked)),
    {
        match self.mark {
            Some(_) => {
                if status != Status::Marked {
                    return Err(AssignmentError::Status(StatusError::NotMarked));
                }
            },
            None => {
                if status == Status::Marked {
                    return Err(AssignmentError::Status(StatusError::Marked));
                }
            },
        }
        self.status = status;
        Ok(())
    }

    /// Re-validate the assignment, reporting the first rule broken: name
    /// length, then weight range, then mark validity, then the mark/status
    /// coupling. Every assignment built through this library's operations
    /// satisfies all four.
    pub fn is_valid(&self) -> (r: Result<(), AssignmentError>)
        ensures
            r is Ok <==> self.wf(),
            !name_ok(self.name@) ==> r == Result::<(), AssignmentError>::Err(
                AssignmentError::NameLength(self.name@.len() as usize),
            ),
            name_ok(self.name@) && (self.value matches Some(v) && v > 100) ==> (r matches Err(e)
                && e == AssignmentError::Value(self.value->Some_0)),
            name_ok(self.name@) && (self.value matches Some(v) ==> v <= 100) && (self.mark matches
                Some(m) && !m.valid()) ==> (r matches Err(e) && e == AssignmentError::Mark(
                self.mark->Some_0.rejection(),
            )),
            name_ok(self.name@) && (self.value matches Some(v) ==> v <= 100) && (self.mark matches
                Some(m) ==> m.valid()) && self.mark is Some && self.status != Status::Marked ==> r
                == Result::<(), AssignmentError>::Err(AssignmentError::Status(
                StatusError::NotMarked,
            )),
            name_ok(self.name@) && (self.value matches Some(v) ==> v <= 100) && (self.mark matches
                Some(m) ==> m.valid()) && self.mark is None && self.status == Status::Marked ==> r
                == Result::<(), AssignmentError>::Err(AssignmentError::Status(StatusError::Marked)),
    {
        let len: usize = self.name.as_str().unicode_len();
        if len == 0 || len > MAX_NAME_LEN {
            return Err(AssignmentError::NameLength(len));
        }
        if let Some(v) = self.value {
            if v > 100 {
                return Err(AssignmentError::Value(v));
            }
        }
        if let Some(m) = self.mark {
            if let Err(e) = m.check_valid() {
                return Err(AssignmentError::Mark(e));
            }
        }
        match self.mark {
            Some(_) => {
                if self.status != Status::Marked {
                    return Err(AssignmentError::Status(StatusError::NotMarked));
                }
            },
            None => {
                if self.status == Status::Marked {
                    return Err(AssignmentError::Status(StatusError::Marked));
                }
            },
        }
        Ok(())
    }
}

/// Builds an [`Assignment`] from optional parts; [`AssignmentBuilder::build`]
/// runs the same validation as [`Assignment::new`] and [`Assignment::set_mark`].
#[derive(Debug, Clone)]
#[verifier::ext_equal]
pub struct AssignmentBuilder {
    pub id: u32,
    pub name: Option<String>,
    pub weight: Option<u32>,
    pub mark: Option<Mark>,
    pub due_date: Option<i64>,
}

impl AssignmentBuilder {
    /// Provide a name.
    pub fn name(self, name: &str) -> (r: AssignmentBuilder)
        ensures
            r.id == self.id,
            r.name matches Some(n) && n@ == name@,
            r.weight == self.weight,
            r.mark == self.mark,
            r.due_date == self.due_date,
    {
        AssignmentBuilder { name: Some(name.to_owned()), ..self }
    }

    /// Provide a weight; range-checked by [`AssignmentBuilder::build`].
    pub fn weight(self, weight: u32) -> (r: AssignmentBuilder)
        ensures
            r == (AssignmentBuilder { weight: Some(weight), ..self }),
    {
        AssignmentBuilder { weight: Some(weight), ..self }
    }

    /// Provide a mark; validity-checked by [`AssignmentBuilder::build`].
    pub fn mark(self, mark: Mark) -> (r: AssignmentBuilder)
        ensures
            r == (AssignmentBuilder { mark: Some(mark), ..self }),
    {
        AssignmentBuilder { mark: Some(mark), ..self }
    }

    /// Provide a due date.
    pub fn due_date(self, due_date: i64) -> (r: AssignmentBuilder)
        ensures
            r == (AssignmentBuilder { due_date: Some(due_date), ..self }),
    {
        AssignmentBuilder { due_date: Some(due_date), ..self }
    }

    /// Finish the assignment. Fails when no name was provided, then on the
    /// same rules as [`Assignment::new`], then on an invalid mark; the
    /// status is `Marked` exactly when a mark was provided.
    pub fn build(self) -> (r: Result<Assignment, AssignmentError>)
        ensures
            r is Ok <==> {
                &&& self.name matches Some(n) && name_ok(n@)
                &&& (self.weight matches Some(w) ==> w <= 100)
                &&& (self.mark matches Some(m) ==> m.valid())
            },
            r matches Ok(a) ==> {
                &&& a.wf()
                &&& a.id == self.id
                &&& (self.name matches Some(n) && a.name@ == n@)
                &&& a.value == self.weight
                &&& a.mark == self.mark
                &&& a.due_date == self.due_date
                &&& (a.status == Status::Marked <==> self.mark is Some)
            },
            self.name is None ==> r == Result::<Assignment, AssignmentError>::Err(
                AssignmentError::NoName,
            ),
            (self.name matches Some(n) && !name_ok(n@)) ==> (r matches Err(e) && e
                == AssignmentError::NameLength(self.name->Some_0@.len() as usize)),
            (self.name matches Some(n) && name_ok(n@)) && (self.weight matches Some(w) && w > 100)
                ==> (r matches Err(e) && e == AssignmentError::Value(self.weight->Some_0)),
            (self.name matches Some(n) && name_ok(n@)) && (self.weight matches Some(w) ==> w
                <= 100) && (self.mark matches Some(m) && !m.valid()) ==> (r matches Err(e) && e
                == AssignmentError::Mark(self.mark->Some_0.rejection())),
    {
        let name = match self.name {
            Some(n) => n,
            None => {
                return Err(AssignmentError::NoName);
            },
        };
        let len: usize = name.as_str().unicode_len();
        if len == 0 || len > MAX_NAME_LEN {
            return Err(AssignmentError::NameLength(len));
        }
        if let Some(w) = self.weight {
            if w > 100 {
                return Err(AssignmentError::Value(w));
            }
        }
        if let Some(m) = self.mark {
            if let Err(e) = m.check_valid() {
                return Err(AssignmentError::Mark(e));
            }
        }
        let status = if self.mark.is_some() {
            Status::Marked
        } else {
            Status::Incomplete
        };
        Ok(Assignment {
            id: self.id,
            name,
            value: self.weight,
            mark: self.mark,
            due_date: self.due_date,
            status,
        })
    }
}

} // verus!
