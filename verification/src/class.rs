//! Classes: a course that owns a collection of assignments and tracks the
//! running sum of their weights, keeping it at or below 100.

use vstd::prelude::*;

use crate::assignment::{Assignment, AssignmentError};
use crate::mark::Mark;
use crate::status::Status;

verus! {

/// Why a class operation was rejected; carries the offending value.
#[derive(Debug, Clone, PartialEq)]
pub enum ClassError {
    /// Adding the assignment would push the weight sum past 100; carries the
    /// sum that was refused.
    TotalValueExceeded(u32),
    /// Another assignment in the class already has this id.
    IdTaken(u32),
    /// Another assignment in the class already has this name.
    NameTaken(String),
    /// No assignment in the class has this id.
    NotFound(u32),
    /// The assignment itself rejected the operation.
    Assignment(AssignmentError),
}

/// Sum of the weights of a sequence of assignments.
pub open spec fn total_of(s: Seq<Assignment>) -> int
    decreases s.len(),
{
    if s.len() == 0 {
        0
    } else {
        total_of(s.drop_last()) + s.last().weight_or_zero()
    }
}

/// Some assignment in `s` has id `id`.
pub open spec fn contains_id(s: Seq<Assignment>, id: u32) -> bool {
    exists|i: int| 0 <= i < s.len() && s[i].id == id
}

/// Some assignment in `s` has name `name`.
pub open spec fn contains_name(s: Seq<Assignment>, name: Seq<char>) -> bool {
    exists|i: int| 0 <= i < s.len() && s[i].name@ == name
}

/// No two assignments in `s` share an id.
pub open spec fn ids_unique(s: Seq<Assignment>) -> bool {
    forall|i: int, j: int| 0 <= i < j < s.len() ==> s[i].id != s[j].id
}

/// No two assignments in `s` share a name.
pub open spec fn names_unique(s: Seq<Assignment>) -> bool {
    forall|i: int, j: int| 0 <= i < j < s.len() ==> s[i].name@ != s[j].name@
}

/// Every assignment in `s` is well-formed.
pub open spec fn all_wf(s: Seq<Assignment>) -> bool {
    forall|i: int| 0 <= i < s.len() ==> (#[trigger] s[i]).wf()
}

/// The position of the assignment with id `id`; meaningful when
/// `contains_id(s, id)` holds, and unique when `ids_unique(s)` holds too.
pub open spec fn idx_of_id(s: Seq<Assignment>, id: u32) -> int {
    choose|i: int| 0 <= i < s.len() && s[i].id == id
}

/// The weight sum of a sequence of assignments is never negative.
pub proof fn lemma_total_of_nonneg(s: Seq<Assignment>)
    ensures
        total_of(s) >= 0,
    decreases s.len(),
{
    if s.len() > 0 {
        lemma_total_of_nonneg(s.drop_last());
    }
}

/// Appending one assignment adds exactly its weight to the sum.
pub proof fn lemma_total_of_push(s: Seq<Assignment>, a: Assignment)
    ensures
        total_of(s.push(a)) == total_of(s) + a.weight_or_zero(),
{
    assert(s.push(a).drop_last() =~= s);
    assert(s.push(a).last() == a);
}

/// Removing one assignment subtracts exactly its weight from the sum.
pub proof fn lemma_total_of_remove(s: Seq<Assignment>, i: int)
    requires
        0 <= i < s.len(),
    ensures
        total_of(s.remove(i)) == total_of(s) - s[i].weight_or_zero(),
    decreases s.len(),
{
    if i == s.len() - 1 {
        assert(s.remove(i) =~= s.drop_last());
    } else {
        assert(s.remove(i).drop_last() =~= s.drop_last().remove(i));
        assert(s.remove(i).last() == s.last());
        lemma_total_of_remove(s.drop_last(), i);
    }
}

/// Replacing an assignment by one of equal weight leaves the sum unchanged.
pub proof fn lemma_total_of_update(s: Seq<Assignment>, i: int, a: Assignment)
    requires
        0 <= i < s.len(),
        a.weight_or_zero() == s[i].weight_or_zero(),
    ensures
        total_of(s.update(i, a)) == total_of(s),
    decreases s.len(),
{
    if i == s.len() - 1 {
        assert(s.update(i, a).drop_last() =~= s.drop_last());
        assert(s.update(i, a).last() == a);
    } else {
        assert(s.update(i, a).drop_last() =~= s.drop_last().update(i, a));
        assert(s.update(i, a).last() == s.last());
        lemma_total_of_update(s.drop_last(), i, a);
    }
}

/// Removal is the inverse of addition: after appending an assignment whose id
/// is fresh, that id is found exactly at the end, removing it there restores
/// the original sequence, and the weight sum returns to its previous value —
/// to 0 when the sequence was empty.
pub proof fn lemma_removal_inverts_addition(s: Seq<Assignment>, a: Assignment)
    requires
        !contains_id(s, a.id),
    ensures
        contains_id(s.push(a), a.id),
        idx_of_id(s.push(a), a.id) == s.len() as int,
        s.push(a)[idx_of_id(s.push(a), a.id)] == a,
        s.push(a).remove(idx_of_id(s.push(a), a.id)) == s,
        total_of(s.push(a)) - a.weight_or_zero() == total_of(s),
        s.len() == 0 ==> total_of(s.push(a)) - a.weight_or_zero() == 0,
{
    let t = s.push(a);
    assert(t[s.len() as int] == a);
    assert(contains_id(t, a.id));
    let i = idx_of_id(t, a.id);
    assert(0 <= i < t.len() && t[i].id == a.id);
    if i < s.len() {
        assert(s[i] == t[i]);
        assert(contains_id(s, a.id));
    }
    assert(i == s.len() as int);
    assert(t.remove(i) =~= s);
    lemma_total_of_push(s, a);
}

/// How removing one assignment affects which ids are present: every other id
/// survives, and no id appears that was not there before.
pub proof fn lemma_contains_id_remove(s: Seq<Assignment>, j: int, x: u32)
    requires
        0 <= j < s.len(),
    ensures
        contains_id(s, x) && s[j].id != x ==> contains_id(s.remove(j), x),
        contains_id(s.remove(j), x) ==> contains_id(s, x),
{
    if contains_id(s, x) && s[j].id != x {
        let w = choose|w: int| 0 <= w < s.len() && s[w].id == x;
        if w < j {
            assert(s.remove(j)[w] == s[w]);
        } else {
            assert(s.remove(j)[w - 1] == s[w]);
        }
    }
    if contains_id(s.remove(j), x) {
        let w = choose|w: int| 0 <= w < s.remove(j).len() && s.remove(j)[w].id == x;
        if w < j {
            assert(s.remove(j)[w] == s[w]);
        } else {
            assert(s.remove(j)[w] == s[w + 1]);
        }
    }
}

/// Find the first position holding the given assignment id.
pub(crate) fn find_index_by_id(v: &Vec<Assignment>, id: u32) -> (r: Option<usize>)
    ensures
        r matches Some(i) ==> i < v@.len() && v@[i as int].id == id && (forall|j: int|
            0 <= j < i ==> v@[j].id != id),
        r is None ==> !contains_id(v@, id),
{
    let mut i: usize = 0;
    while i < v.len()
        invariant
            i <= v@.len(),
            forall|j: int| 0 <= j < i ==> v@[j].id != id,
        decreases v@.len() - i,
    {
        if v[i].id == id {
            return Some(i);
        }
        i += 1;
    }
    None
}

/// Find the first position holding the given assignment name.
pub(crate) fn find_index_by_name(v: &Vec<Assignment>, name: &String) -> (r: Option<usize>)
    ensures
        r matches Some(i) ==> i < v@.len() && v@[i as int].name@ == name@ && (forall|j: int|
            0 <= j < i ==> v@[j].name@ != name@),
        r is None ==> !contains_name(v@, name@),
{
    let mut i: usize = 0;
    while i < v.len()
        invariant
            i <= v@.len(),
            forall|j: int| 0 <= j < i ==> v@[j].name@ != name@,
        decreases v@.len() - i,
    {
        if v[i].name == *name {
            return Some(i);
        }
        i += 1;
    }
    None
}

/// A course: an id, a code (also used as its display name), the assignments
/// it owns, and the running sum of their weights.
#[derive(Debug, Clone, PartialEq)]
#[verifier::ext_equal]
pub struct Class {
    pub id: u32,
    pub code: String,
    pub assignments: Vec<Assignment>,
    pub total_value: u32,
}

impl Class {
    /// Well-formedness: every owned assignment is well-formed, ids and names
    /// are unique within the class, and `total_value` equals the sum of the
    /// owned weights and stays at or below 100.
    pub open spec fn wf(self) -> bool {
        &&& all_wf(self.assignments@)
        &&& ids_unique(self.assignments@)
        &&& names_unique(self.assignments@)
        &&& self.total_value == total_of(self.assignments@)
        &&& self.total_value <= 100
    }

    /// Create an empty class; always succeeds, with a weight sum of 0.
    pub fn new(id: u32, code: &str) -> (r: Class)
        ensures
            r.id == id,
            r.code@ == code@,
            r.assignments@ == Seq::<Assignment>::empty(),
            r.total_value == 0,
            r.wf(),
    {
        Class { id, code: code.to_owned(), assignments: Vec::new(), total_value: 0 }
    }

    /// The class's id.
    pub fn id(&self) -> (r: u32)
        ensures
            r == self.id,
    {
        self.id
    }

    /// The class's unique code.
    pub fn code(&self) -> (r: &String)
        ensures
            r@ == self.code@,
    {
        &self.code
    }

    /// The class's display name; this class form uses the code as its name.
    pub fn name(&self) -> (r: &String)
        ensures
            r@ == self.code@,
    {
        &self.code
    }

    /// The running sum of the owned assignments' weights.
    pub fn total_value(&self) -> (r: u32)
        ensures
            r == self.total_value,
    {
        self.total_value
    }

    /// The assignments owned by the class.
    pub fn assignments(&self) -> (r: &Vec<Assignment>)
        ensures
            r@ == self.assignments@,
    {
        &self.assignments
    }

    /// The owned assignment with the given id, if any.
    pub fn get_assignment(&self, id: u32) -> (r: Option<&Assignment>)
        requires
            self.wf(),
        ensures
            r is Some <==> contains_id(self.assignments@, id),
            r matches Some(a) ==> *a == self.assignments@[idx_of_id(self.assignments@, id)]
                && a.id == id,
    {
        match find_index_by_id(&self.assignments, id) {
            Some(i) => {
                proof {
                    let k = idx_of_id(self.assignments@, id);
                    assert(self.assignments@[i as int].id == id);
                    assert(contains_id(self.assignments@, id));
                    assert(0 <= k < self.assignments@.len() && self.assignments@[k].id == id);
                    assert(k == i as int);
                }
                Some(&self.assignments[i])
            },
            None => None,
        }
    }

    /// Add an assignment. The weight bound is checked first, then id
    /// uniqueness, then name uniqueness; on any failure the class is left
    /// unchanged. On success the assignment is appended and the weight sum
    /// grows by its weight.
    pub fn add_assignment(&mut self, a: Assignment) -> (r: Result<(), ClassError>)
        requires
            old(self).wf(),
            a.wf(),
        ensures
            final(self).wf(),
            r is Ok <==> {
                &&& old(self).total_value + a.weight_or_zero() <= 100
                &&& !contains_id(old(self).assignments@, a.id)
                &&& !contains_name(old(self).assignments@, a.name@)
            },
            r is Ok ==> final(self).assignments@ == old(self).assignments@.push(a)
                && final(self).total_value == old(self).total_value + a.weight_or_zero()
                && final(self).id == old(self).id && final(self).code == old(self).code,
            r is Err ==> *final(self) == *old(self),
            old(self).total_value + a.weight_or_zero() > 100 ==> (r matches Err(
                ClassError::TotalValueExceeded(t),
            ) && t == old(self).total_value + a.weight_or_zero()),
            old(self).total_value + a.weight_or_zero() <= 100 && contains_id(
                old(self).assignments@,
                a.id,
            ) ==> r == Result::<(), ClassError>::Err(ClassError::IdTaken(a.id)),
            old(self).total_value + a.weight_or_zero() <= 100 && !contains_id(
                old(self).assignments@,
                a.id,
            ) && contains_name(old(self).assignments@, a.name@) ==> (r matches Err(
                ClassError::NameTaken(n),
            ) && n@ == a.name@),
    {
        let w: u32 = match a.value {
            Some(v) => v,
            None => 0,
        };
        let new_total: u32 = self.total_value + w;
        if new_total > 100 {
            return Err(ClassError::TotalValueExceeded(new_total));
        }
        if find_index_by_id(&self.assignments, a.id).is_some() {
            return Err(ClassError::IdTaken(a.id));
        }
        if find_index_by_name(&self.assignments, &a.name).is_some() {
            return Err(ClassError::NameTaken(a.name.clone()));
        }
        proof {
            lemma_total_of_push(self.assignments@, a);
        }
        self.total_value = new_total;
        self.assignments.push(a);
        proof {
            let s = old(self).assignments@;
            let t = self.assignments@;
            assert forall|i: int, j: int| 0 <= i < j < t.len() implies t[i].id != t[j].id by {
                if j < s.len() {
                } else {
                    assert(t[j] == a);
                    assert(s[i].id != a.id) by {
                        if s[i].id == a.id {
                            assert(contains_id(s, a.id));
                        }
                    }
                }
            }
            assert forall|i: int, j: int| 0 <= i < j < t.len() implies t[i].name@ != t[j].name@ by {
                if j < s.len() {
                } else {
                    assert(t[j] == a);
                    assert(s[i].name@ != a.name@) by {
                        if s[i].name@ == a.name@ {
                            assert(contains_name(s, a.name@));
                        }
                    }
                }
            }
        }
        Ok(())
    }

    /// Remove and return the assignment with the given id; fails exactly when
    /// no owned assignment has that id, leaving the class unchanged. On
    /// success the weight sum shrinks by the removed assignment's weight.
    pub fn remove_assignment(&mut self, id: u32) -> (r: Result<Assignment, ClassError>)
        requires
            old(self).wf(),
        ensures
            final(self).wf(),
            r is Ok <==> contains_id(old(self).assignments@, id),
            r matches Ok(a) ==> {
                let i = idx_of_id(old(self).assignments@, id);
                &&& a == old(self).assignments@[i]
                &&& a.id == id
                &&& final(self).assignments@ == old(self).assignments@.remove(i)
                &&& final(self).total_value == old(self).total_value - a.weight_or_zero()
                &&& final(self).id == old(self).id
                &&& final(self).code == old(self).code
            },
            r is Err ==> *final(self) == *old(self) && r == Result::<Assignment, ClassError>::Err(
                ClassError::NotFound(id),
            ),
    {
        let i = match find_index_by_id(&self.assignments, id) {
            Some(i) => i,
            None => {
                return Err(ClassError::NotFound(id));
            },
        };
        proof {
            let s = self.assignments@;
            assert(contains_id(s, id));
            let k = idx_of_id(s, id);
            assert(0 <= k < s.len() && s[k].id == id);
            assert(k == i as int);
            lemma_total_of_remove(s, i as int);
            lemma_total_of_nonneg(s.remove(i as int));
        }
        let a = self.assignments.remove(i);
        let w: u32 = match a.value {
            Some(v) => v,
            None => 0,
        };
        self.total_value = self.total_value - w;
        proof {
            let s = old(self).assignments@;
            let t = self.assignments@;
            assert forall|p: int, q: int| 0 <= p < q < t.len() implies t[p].id != t[q].id by {
                let p0 = if p < i as int { p } else { p + 1 };
                let q0 = if q < i as int { q } else { q + 1 };
                assert(t[p] == s[p0] && t[q] == s[q0]);
            }
            assert forall|p: int, q: int| 0 <= p < q < t.len() implies t[p].name@ != t[q].name@ by {
                let p0 = if p < i as int { p } else { p + 1 };
                let q0 = if q < i as int { q } else { q + 1 };
                assert(t[p] == s[p0] && t[q] == s[q0]);
            }
        }
        Ok(a)
    }

    /// Award a mark to the owned assignment with the given id. Fails with
    /// `NotFound` when no assignment has the id, and rejects an invalid mark
    /// as [`Assignment::set_mark`] does; on failure the class is unchanged.
    pub fn set_mark(&mut self, id: u32, mark: Mark) -> (r: Result<(), ClassError>)
        requires
            old(self).wf(),
        ensures
            final(self).wf(),
            r is Ok <==> contains_id(old(self).assignments@, id) && mark.valid(),
            !contains_id(old(self).assignments@, id) ==> r == Result::<(), ClassError>::Err(
                ClassError::NotFound(id),
            ),
            contains_id(old(self).assignments@, id) && !mark.valid() ==> r == Result::<
                (),
                ClassError,
            >::Err(ClassError::Assignment(AssignmentError::Mark(mark.rejection()))),
            r is Err ==> *final(self) == *old(self),
            r is Ok ==> {
                let i = idx_of_id(old(self).assignments@, id);
                &&& final(self).assignments@ == old(self).assignments@.update(
                    i,
                    (Assignment {
                        mark: Some(mark),
                        status: Status::Marked,
                        ..old(self).assignments@[i]
                    }),
                )
                &&& final(self).assignments@[i].status == Status::Marked
                &&& final(self).total_value == old(self).total_value
                &&& final(self).id == old(self).id
                &&& final(self).code == old(self).code
            },
    {
        let i = match find_index_by_id(&self.assignments, id) {
            Some(i) => i,
            None => {
                return Err(ClassError::NotFound(id));
            },
        };
        if let Err(e) = mark.check_valid() {
            return Err(ClassError::Assignment(AssignmentError::Mark(e)));
        }
        proof {
            let s = self.assignments@;
            assert(contains_id(s, id));
            let k = idx_of_id(s, id);
            assert(0 <= k < s.len() && s[k].id == id);
            assert(k == i as int);
        }
        let mut a = self.assignments.remove(i);
        let marked = a.set_mark(mark);
        assert(marked is Ok);
        self.assignments.insert(i, a);
        proof {
            let s = old(self).assignments@;
            let i = i as int;
            let b = (Assignment { mark: Some(mark), status: Status::Marked, ..s[i] });
            assert(self.assignments@ =~= s.update(i, b));
            lemma_total_of_update(s, i, b);
            assert forall|p: int, q: int|
                0 <= p < q < s.len() implies s.update(i, b)[p].id != s.update(i, b)[q].id by {}
            assert forall|p: int, q: int|
                0 <= p < q < s.len() implies s.update(i, b)[p].name@ != s.update(i, b)[q].name@ by {}
        }
        Ok(())
    }
}

impl Default for Class {
    /// An empty class with id 0 and the code `DEFAULT`.
    fn default() -> (r: Class)
        ensures
            r.id == 0,
            r.code@ == "DEFAULT"@,
            r.assignments@ == Seq::<Assignment>::empty(),
            r.total_value == 0,
            r.wf(),
    {
        Class::new(0, "DEFAULT")
    }
}

} // verus!
