//! Trackers: the aggregate root. A tracker owns classes, each class owns its
//! assignments, and a denormalized index maps every assignment id to the code
//! of the owning class.
//!
//! Invariants enforced across all operations: class codes are unique in the
//! tracker, assignment ids are unique across the whole tracker, assignment
//! names are unique within each class. An operation that would break one of
//! these fails with a typed error and changes nothing.

use vstd::prelude::*;

use crate::assignment::Assignment;
use crate::class::{
    contains_id, contains_name, find_index_by_name, idx_of_id, Class, ClassError,
};
use crate::mark::Mark;

verus! {

/// Why a tracker operation was rejected; carries the offending value.
#[derive(Debug, Clone, PartialEq)]
pub enum TrackerError {
    /// A class with this code is already tracked.
    CodeTaken(String),
    /// No tracked class has this code.
    NoClass(String),
    /// An assignment with this id is already tracked, possibly in another
    /// class.
    IdTaken(u32),
    /// No tracked assignment has this id.
    NoAssignment(u32),
    /// An assignment with this name already exists in the named class.
    NameTaken(String, String),
    /// The owning class rejected the operation.
    Class(ClassError),
}

/// No two classes in `s` share a code.
pub open spec fn codes_unique(s: Seq<Class>) -> bool {
    forall|i: int, j: int| 0 <= i < j < s.len() ==> s[i].code@ != s[j].code@
}

/// Some class in `s` has the code `code`.
pub open spec fn contains_code(s: Seq<Class>, code: Seq<char>) -> bool {
    exists|i: int| 0 <= i < s.len() && s[i].code@ == code
}

/// The position of the class with code `code`; meaningful when
/// `contains_code(s, code)` holds, and unique when `codes_unique(s)` holds.
pub open spec fn idx_of_code(s: Seq<Class>, code: Seq<char>) -> int {
    choose|i: int| 0 <= i < s.len() && s[i].code@ == code
}

/// Every class in `s` is well-formed.
pub open spec fn classes_wf(s: Seq<Class>) -> bool {
    forall|i: int| 0 <= i < s.len() ==> (#[trigger] s[i]).wf()
}

/// Some class in `s` owns an assignment with id `id`.
pub open spec fn tracker_has_id(s: Seq<Class>, id: u32) -> bool {
    exists|i: int| 0 <= i < s.len() && contains_id(#[trigger] s[i].assignments@, id)
}

/// The position of the class owning the assignment with id `id`; meaningful
/// when `tracker_has_id(s, id)` holds, unique in a well-formed tracker.
pub open spec fn idx_of_class_with_id(s: Seq<Class>, id: u32) -> int {
    choose|i: int| 0 <= i < s.len() && contains_id(s[i].assignments@, id)
}

/// Some index entry carries assignment id `id`.
pub open spec fn index_has_id(x: Seq<(u32, String)>, id: u32) -> bool {
    exists|k: int| 0 <= k < x.len() && x[k].0 == id
}

/// The position of the index entry carrying `id`; meaningful when
/// `index_has_id(x, id)` holds, unique when the index ids are unique.
pub open spec fn idx_in_index(x: Seq<(u32, String)>, id: u32) -> int {
    choose|k: int| 0 <= k < x.len() && x[k].0 == id
}

/// Some index entry maps assignment id `id` to class code `code`.
pub open spec fn index_has_entry(x: Seq<(u32, String)>, id: u32, code: Seq<char>) -> bool {
    exists|k: int| 0 <= k < x.len() && x[k].0 == id && x[k].1@ == code
}

/// No two index entries carry the same assignment id.
pub open spec fn index_ids_unique(x: Seq<(u32, String)>) -> bool {
    forall|k1: int, k2: int| 0 <= k1 < k2 < x.len() ==> x[k1].0 != x[k2].0
}

/// An index entry is backed by a class: a class with the entry's code exists
/// and owns an assignment with the entry's id.
pub open spec fn entry_ok(s: Seq<Class>, e: (u32, String)) -> bool {
    exists|i: int| 0 <= i < s.len() && s[i].code@ == e.1@ && contains_id(s[i].assignments@, e.0)
}

/// The index entries of `x` whose class code is not `code`, in order.
pub open spec fn filter_out_code(x: Seq<(u32, String)>, code: Seq<char>) -> Seq<(u32, String)>
    decreases x.len(),
{
    if x.len() == 0 {
        Seq::empty()
    } else if x.last().1@ == code {
        filter_out_code(x.drop_last(), code)
    } else {
        filter_out_code(x.drop_last(), code).push(x.last())
    }
}

/// Keeps track of many assignments from many classes, with an index from
/// assignment id to owning class code.
#[derive(Debug, Clone, PartialEq)]
#[verifier::ext_equal]
pub struct Tracker {
    pub name: String,
    pub classes: Vec<Class>,
    pub index: Vec<(u32, String)>,
}

impl Tracker {
    /// Well-formedness: every class is well-formed, class codes are unique,
    /// every index entry is backed by a class, every owned assignment has an
    /// index entry under its class's code, and index ids are unique. Global
    /// uniqueness of assignment ids follows; see
    /// [`lemma_uniqueness_invariants`].
    pub open spec fn wf(self) -> bool {
        &&& classes_wf(self.classes@)
        &&& codes_unique(self.classes@)
        &&& forall|k: int|
            0 <= k < self.index@.len() ==> entry_ok(self.classes@, #[trigger] self.index@[k])
        &&& forall|i: int, j: int|
            0 <= i < self.classes@.len() && 0 <= j < self.classes@[i].assignments@.len()
                ==> index_has_entry(
                self.index@,
                (#[trigger] self.classes@[i].assignments@[j]).id,
                self.classes@[i].code@,
            )
        &&& index_ids_unique(self.index@)
    }

    /// Create an empty tracker with the given display name.
    pub fn new(name: &str) -> (r: Tracker)
        ensures
            r.name@ == name@,
            r.classes@ == Seq::<Class>::empty(),
            r.index@ == Seq::<(u32, String)>::empty(),
            r.wf(),
    {
        Tracker { name: name.to_owned(), classes: Vec::new(), index: Vec::new() }
    }

    /// The tracker's display name; not required to be unique.
    pub fn name(&self) -> (r: &String)
        ensures
            r@ == self.name@,
    {
        &self.name
    }

    /// The tracked classes.
    pub fn classes(&self) -> (r: &Vec<Class>)
        ensures
            r@ == self.classes@,
    {
        &self.classes
    }
}

impl Default for Tracker {
    /// An empty tracker named `Default Tracker`.
    fn default() -> (r: Tracker)
        ensures
            r.name@ == "Default Tracker"@,
            r.classes@ == Seq::<Class>::empty(),
            r.index@ == Seq::<(u32, String)>::empty(),
            r.wf(),
    {
        Tracker::new("Default Tracker")
    }
}

/// Find the first position of the class with the given code.
pub(crate) fn find_class_index(v: &Vec<Class>, code: &String) -> (r: Option<usize>)
    ensures
        r matches Some(i) ==> i < v@.len() && v@[i as int].code@ == code@ && (forall|j: int|
            0 <= j < i ==> v@[j].code@ != code@),
        r is None ==> !contains_code(v@, code@),
{
    let mut i: usize = 0;
    while i < v.len()
        invariant
            i <= v@.len(),
            forall|j: int| 0 <= j < i ==> v@[j].code@ != code@,
        decreases v@.len() - i,
    {
        if v[i].code == *code {
            return Some(i);
        }
        i += 1;
    }
    None
}

/// Find the first position of the index entry carrying the given id.
pub(crate) fn find_index_entry(x: &Vec<(u32, String)>, id: u32) -> (r: Option<usize>)
    ensures
        r matches Some(k) ==> k < x@.len() && x@[k as int].0 == id && (forall|j: int|
            0 <= j < k ==> x@[j].0 != id),
        r is None ==> !index_has_id(x@, id),
{
    let mut k: usize = 0;
    while k < x.len()
        invariant
            k <= x@.len(),
            forall|j: int| 0 <= j < k ==> x@[j].0 != id,
        decreases x@.len() - k,
    {
        if x[k].0 == id {
            return Some(k);
        }
        k += 1;
    }
    None
}

/// In a well-formed tracker, an id is in the index exactly when some class
/// owns an assignment with that id.
pub proof fn lemma_id_in_index(t: Tracker, id: u32)
    requires
        t.wf(),
    ensures
        index_has_id(t.index@, id) <==> tracker_has_id(t.classes@, id),
{
    if index_has_id(t.index@, id) {
        let k = choose|k: int| 0 <= k < t.index@.len() && t.index@[k].0 == id;
        assert(entry_ok(t.classes@, t.index@[k]));
        let i = choose|i: int|
            0 <= i < t.classes@.len() && t.classes@[i].code@ == t.index@[k].1@ && contains_id(
                t.classes@[i].assignments@,
                t.index@[k].0,
            );
        assert(contains_id(t.classes@[i].assignments@, id));
        assert(tracker_has_id(t.classes@, id));
    }
    if tracker_has_id(t.classes@, id) {
        let i = choose|i: int|
            0 <= i < t.classes@.len() && contains_id(t.classes@[i].assignments@, id);
        let j = choose|j: int|
            0 <= j < t.classes@[i].assignments@.len() && t.classes@[i].assignments@[j].id == id;
        assert(index_has_entry(t.index@, t.classes@[i].assignments@[j].id, t.classes@[i].code@));
        let k = choose|k: int|
            0 <= k < t.index@.len() && t.index@[k].0 == id && t.index@[k].1@ == t.classes@[i].code@;
        assert(index_has_id(t.index@, id));
    }
}

/// In a well-formed tracker, only one class can own an assignment with a
/// given id.
pub proof fn lemma_one_class_per_id(t: Tracker, i: int, p: int, id: u32)
    requires
        t.wf(),
        0 <= i < t.classes@.len(),
        0 <= p < t.classes@.len(),
        contains_id(t.classes@[i].assignments@, id),
        contains_id(t.classes@[p].assignments@, id),
    ensures
        i == p,
{
    let ji = choose|j: int|
        0 <= j < t.classes@[i].assignments@.len() && t.classes@[i].assignments@[j].id == id;
    let jp = choose|j: int|
        0 <= j < t.classes@[p].assignments@.len() && t.classes@[p].assignments@[j].id == id;
    assert(index_has_entry(t.index@, t.classes@[i].assignments@[ji].id, t.classes@[i].code@));
    assert(index_has_entry(t.index@, t.classes@[p].assignments@[jp].id, t.classes@[p].code@));
    let ki = choose|k: int|
        0 <= k < t.index@.len() && t.index@[k].0 == id && t.index@[k].1@ == t.classes@[i].code@;
    let kp = choose|k: int|
        0 <= k < t.index@.len() && t.index@[k].0 == id && t.index@[k].1@ == t.classes@[p].code@;
    assert(ki == kp) by {
        if ki != kp {
            assert(t.index@[ki].0 == t.index@[kp].0);
        }
    }
    assert(t.classes@[i].code@ == t.classes@[p].code@);
    if i != p {
        assert(codes_unique(t.classes@));
        assert(false);
    }
}

/// The uniqueness invariants of a well-formed tracker: no two classes share a
/// code, no two assignments anywhere in the tracker share an id, and no two
/// assignments in one class share a name.
pub proof fn lemma_uniqueness_invariants(t: Tracker)
    requires
        t.wf(),
    ensures
        codes_unique(t.classes@),
        forall|i1: int, j1: int, i2: int, j2: int|
            {
                &&& 0 <= i1 < t.classes@.len() && 0 <= j1 < t.classes@[i1].assignments@.len()
                &&& 0 <= i2 < t.classes@.len() && 0 <= j2 < t.classes@[i2].assignments@.len()
                &&& (i1 != i2 || j1 != j2)
            } ==> (#[trigger] t.classes@[i1].assignments@[j1]).id != (
            #[trigger] t.classes@[i2].assignments@[j2]).id,
        forall|i: int|
            0 <= i < t.classes@.len() ==> crate::class::names_unique(
                (#[trigger] t.classes@[i]).assignments@,
            ),
{
    assert forall|i1: int, j1: int, i2: int, j2: int|
        {
            &&& 0 <= i1 < t.classes@.len() && 0 <= j1 < t.classes@[i1].assignments@.len()
            &&& 0 <= i2 < t.classes@.len() && 0 <= j2 < t.classes@[i2].assignments@.len()
            &&& (i1 != i2 || j1 != j2)
        } implies (#[trigger] t.classes@[i1].assignments@[j1]).id != (
    #[trigger] t.classes@[i2].assignments@[j2]).id by {
        let id = t.classes@[i1].assignments@[j1].id;
        if t.classes@[i2].assignments@[j2].id == id {
            assert(contains_id(t.classes@[i1].assignments@, id));
            assert(contains_id(t.classes@[i2].assignments@, id));
            lemma_one_class_per_id(t, i1, i2, id);
            assert(i1 == i2);
            assert(crate::class::ids_unique(t.classes@[i1].assignments@));
            if j1 < j2 {
                assert(false);
            }
            if j2 < j1 {
                assert(false);
            }
        }
    }
}

/// Every entry kept by [`filter_out_code`] is an entry of the original index
/// whose class code differs from the filtered one, and every such entry is
/// kept.
pub proof fn lemma_filter_out_code_props(x: Seq<(u32, String)>, code: Seq<char>)
    ensures
        forall|k: int|
            0 <= k < filter_out_code(x, code).len() ==> x.contains(
                #[trigger] filter_out_code(x, code)[k],
            ) && filter_out_code(x, code)[k].1@ != code,
        forall|k: int|
            0 <= k < x.len() && (#[trigger] x[k]).1@ != code ==> filter_out_code(x, code).contains(
                x[k],
            ),
    decreases x.len(),
{
    if x.len() > 0 {
        lemma_filter_out_code_props(x.drop_last(), code);
        let f0 = filter_out_code(x.drop_last(), code);
        let f = filter_out_code(x, code);
        assert forall|k: int| 0 <= k < f.len() implies x.contains(#[trigger] f[k]) && f[k].1@
            != code by {
            if k < f0.len() {
                assert(f[k] == f0[k]);
                assert(x.drop_last().contains(f0[k]));
                let w = choose|w: int| 0 <= w < x.drop_last().len() && x.drop_last()[w] == f0[k];
                assert(x[w] == f0[k]);
            } else {
                assert(f[k] == x.last());
                assert(x[x.len() - 1] == x.last());
            }
        }
        assert forall|k: int| 0 <= k < x.len() && (#[trigger] x[k]).1@ != code implies f.contains(
            x[k],
        ) by {
            if k < x.len() - 1 {
                assert(x.drop_last()[k] == x[k]);
                assert(f0.contains(x[k]));
                let w = choose|w: int| 0 <= w < f0.len() && f0[w] == x[k];
                assert(f[w] == x[k]);
            } else {
                assert(x[k] == x.last());
                assert(f.last() == x.last());
            }
        }
    }
}

/// Filtering an index with unique ids leaves the ids unique, and introduces
/// no id that was not there before.
pub proof fn lemma_filter_out_code_unique(x: Seq<(u32, String)>, code: Seq<char>)
    requires
        index_ids_unique(x),
    ensures
        index_ids_unique(filter_out_code(x, code)),
        forall|id: u32|
            #[trigger] index_has_id(filter_out_code(x, code), id) ==> index_has_id(x, id),
    decreases x.len(),
{
    lemma_filter_out_code_props(x, code);
    let f = filter_out_code(x, code);
    assert forall|k1: int, k2: int| 0 <= k1 < k2 < f.len() implies f[k1].0 != f[k2].0 by {
        if x.len() > 0 {
            let f0 = filter_out_code(x.drop_last(), code);
            assert(index_ids_unique(x.drop_last()));
            lemma_filter_out_code_unique(x.drop_last(), code);
            lemma_filter_out_code_props(x.drop_last(), code);
            if k2 < f0.len() {
                assert(f[k1] == f0[k1] && f[k2] == f0[k2]);
            } else {
                assert(f[k2] == x.last());
                assert(f[k1] == f0[k1]);
                assert(x.drop_last().contains(f0[k1]));
                let w = choose|w: int|
                    0 <= w < x.drop_last().len() && x.drop_last()[w] == f0[k1];
                assert(x[w] == f0[k1]);
                assert(x[x.len() - 1] == x.last());
            }
        }
    }
    assert forall|id: u32| #[trigger] index_has_id(f, id) implies index_has_id(x, id) by {
        let k = choose|k: int| 0 <= k < f.len() && f[k].0 == id;
        assert(x.contains(f[k]));
        let w = choose|w: int| 0 <= w < x.len() && x[w] == f[k];
        assert(x[w].0 == id);
    }
}

impl Tracker {
    /// Track a class. Fails with `CodeTaken` when a class with the same code
    /// is already tracked, and with `IdTaken` when the incoming class owns an
    /// assignment whose id is already tracked elsewhere; on failure the
    /// tracker is unchanged. On success the class is appended and every
    /// assignment it owns gains an index entry under the class's code.
    pub fn add_class(&mut self, class: Class) -> (r: Result<(), TrackerError>)
        requires
            old(self).wf(),
            class.wf(),
        ensures
            final(self).wf(),
            r is Ok <==> !contains_code(old(self).classes@, class.code@) && (forall|j: int|
                0 <= j < class.assignments@.len() ==> !tracker_has_id(
                    old(self).classes@,
                    (#[trigger] class.assignments@[j]).id,
                )),
            r is Ok ==> {
                &&& final(self).classes@ == old(self).classes@.push(class)
                &&& final(self).name == old(self).name
                &&& final(self).index@.len() == old(self).index@.len()
                    + class.assignments@.len()
                &&& (forall|k: int|
                    0 <= k < old(self).index@.len() ==> final(self).index@[k] == old(
                        self,
                    ).index@[k])
                &&& (forall|k: int|
                    old(self).index@.len() <= k < final(self).index@.len()
                        ==> ((#[trigger] final(self).index@[k]).0 == class.assignments@[k - old(
                        self,
                    ).index@.len()].id && final(self).index@[k].1@ == class.code@))
            },
            r is Err ==> *final(self) == *old(self),
            contains_code(old(self).classes@, class.code@) ==> (r matches Err(
                TrackerError::CodeTaken(c),
            ) && c@ == class.code@),
            !contains_code(old(self).classes@, class.code@) && (exists|j: int|
                0 <= j < class.assignments@.len() && tracker_has_id(
                    old(self).classes@,
                    (#[trigger] class.assignments@[j]).id,
                )) ==> (r matches Err(TrackerError::IdTaken(id)) && tracker_has_id(
                old(self).classes@,
                id,
            ) && contains_id(class.assignments@, id)),
    {
        if find_class_index(&self.classes, &class.code).is_some() {
            return Err(TrackerError::CodeTaken(class.code.clone()));
        }
        let m = class.assignments.len();
        let mut j: usize = 0;
        while j < m
            invariant
                *self == *old(self),
                old(self).wf(),
                class.wf(),
                !contains_code(old(self).classes@, class.code@),
                m == class.assignments@.len(),
                j <= m,
                forall|q: int|
                    0 <= q < j ==> !index_has_id(
                        self.index@,
                        (#[trigger] class.assignments@[q]).id,
                    ),
            decreases m - j,
        {
            if find_index_entry(&self.index, class.assignments[j].id).is_some() {
                proof {
                    lemma_id_in_index(*self, class.assignments@[j as int].id);
                    assert(tracker_has_id(old(self).classes@, class.assignments@[j as int].id));
                    assert(contains_id(class.assignments@, class.assignments@[j as int].id));
                }
                return Err(TrackerError::IdTaken(class.assignments[j].id));
            }
            j += 1;
        }
        proof {
            assert forall|q: int| 0 <= q < class.assignments@.len() implies !tracker_has_id(
                old(self).classes@,
                (#[trigger] class.assignments@[q]).id,
            ) by {
                lemma_id_in_index(*old(self), class.assignments@[q].id);
            }
        }
        let mut j: usize = 0;
        while j < m
            invariant
                old(self).wf(),
                class.wf(),
                !contains_code(old(self).classes@, class.code@),
                m == class.assignments@.len(),
                j <= m,
                self.classes@ == old(self).classes@,
                self.name == old(self).name,
                self.index@.len() == old(self).index@.len() + j,
                forall|k: int|
                    0 <= k < old(self).index@.len() ==> self.index@[k] == old(self).index@[k],
                forall|k: int|
                    old(self).index@.len() <= k < self.index@.len() ==> (
                    #[trigger] self.index@[k]).0 == class.assignments@[k - old(
                        self,
                    ).index@.len()].id && self.index@[k].1@ == class.code@,
                forall|q: int|
                    0 <= q < m ==> !index_has_id(
                        old(self).index@,
                        (#[trigger] class.assignments@[q]).id,
                    ),
            decreases m - j,
        {
            let entry_id = class.assignments[j].id;
            self.index.push((entry_id, class.code.clone()));
            j += 1;
        }
        self.classes.push(class);
        proof {
            let s0 = old(self).classes@;
            let x0 = old(self).index@;
            let s1 = self.classes@;
            let x1 = self.index@;
            assert(s1 == s0.push(class));
            assert forall|i: int| 0 <= i < s1.len() implies (#[trigger] s1[i]).wf() by {
                if i < s0.len() {
                    assert(s1[i] == s0[i]);
                } else {
                    assert(s1[i] == class);
                }
            }
            assert forall|i: int, j2: int| 0 <= i < j2 < s1.len() implies s1[i].code@
                != s1[j2].code@ by {
                if j2 < s0.len() {
                    assert(s1[i] == s0[i] && s1[j2] == s0[j2]);
                } else {
                    assert(s1[j2] == class);
                    assert(s1[i] == s0[i]);
                    if s0[i].code@ == class.code@ {
                        assert(contains_code(s0, class.code@));
                    }
                }
            }
            assert forall|k: int| 0 <= k < x1.len() implies entry_ok(s1, #[trigger] x1[k]) by {
                if k < x0.len() {
                    assert(x1[k] == x0[k]);
                    assert(entry_ok(s0, x0[k]));
                    let i = choose|i: int|
                        0 <= i < s0.len() && s0[i].code@ == x0[k].1@ && contains_id(
                            s0[i].assignments@,
                            x0[k].0,
                        );
                    assert(s1[i] == s0[i]);
                    assert(entry_ok(s1, x1[k]));
                } else {
                    let q = k - x0.len();
                    assert(x1[k].0 == class.assignments@[q].id && x1[k].1@ == class.code@);
                    let i = s0.len() as int;
                    assert(s1[i] == class);
                    assert(contains_id(class.assignments@, x1[k].0));
                    assert(entry_ok(s1, x1[k]));
                }
            }
            assert forall|i: int, j3: int|
                0 <= i < s1.len() && 0 <= j3 < s1[i].assignments@.len() implies index_has_entry(
                x1,
                (#[trigger] s1[i].assignments@[j3]).id,
                s1[i].code@,
            ) by {
                if i < s0.len() {
                    assert(s1[i] == s0[i]);
                    assert(index_has_entry(x0, s0[i].assignments@[j3].id, s0[i].code@));
                    let k = choose|k: int|
                        0 <= k < x0.len() && x0[k].0 == s0[i].assignments@[j3].id && x0[k].1@
                            == s0[i].code@;
                    assert(x1[k] == x0[k]);
                    assert(index_has_entry(x1, s1[i].assignments@[j3].id, s1[i].code@));
                } else {
                    assert(s1[i] == class);
                    let k = x0.len() as int + j3;
                    assert(x1[k].0 == class.assignments@[j3].id && x1[k].1@ == class.code@);
                    assert(index_has_entry(x1, s1[i].assignments@[j3].id, s1[i].code@));
                }
            }
            assert forall|k1: int, k2: int| 0 <= k1 < k2 < x1.len() implies x1[k1].0
                != x1[k2].0 by {
                if k2 < x0.len() {
                    assert(x1[k1] == x0[k1] && x1[k2] == x0[k2]);
                } else if k1 < x0.len() {
                    let q = k2 - x0.len();
                    assert(x1[k2].0 == class.assignments@[q].id);
                    assert(!index_has_id(x0, class.assignments@[q].id));
                    if x1[k1].0 == x1[k2].0 {
                        assert(x0[k1].0 == class.assignments@[q].id);
                        assert(index_has_id(x0, class.assignments@[q].id));
                    }
                } else {
                    let q1 = k1 - x0.len();
                    let q2 = k2 - x0.len();
                    assert(crate::class::ids_unique(class.assignments@));
                    assert(x1[k1].0 == class.assignments@[q1].id);
                    assert(x1[k2].0 == class.assignments@[q2].id);
                }
            }
        }
        Ok(())
    }

    /// Track an assignment in the class with the given code. Checks, in
    /// order: the assignment id must be free across the whole tracker
    /// (`IdTaken`), a class with the code must exist (`NoClass`), the name
    /// must be free within that class (`NameTaken`), and the class's weight
    /// sum must stay at or below 100; on any failure the tracker is
    /// unchanged. On success the assignment is appended to the class and the
    /// index gains the entry id -> code.
    pub fn add_assignment(&mut self, code: &str, a: Assignment) -> (r: Result<(), TrackerError>)
        requires
            old(self).wf(),
            a.wf(),
        ensures
            final(self).wf(),
            r is Ok <==> {
                let i = idx_of_code(old(self).classes@, code@);
                &&& !tracker_has_id(old(self).classes@, a.id)
                &&& contains_code(old(self).classes@, code@)
                &&& !contains_name(old(self).classes@[i].assignments@, a.name@)
                &&& old(self).classes@[i].total_value + a.weight_or_zero() <= 100
            },
            r is Err ==> *final(self) == *old(self),
            tracker_has_id(old(self).classes@, a.id) ==> r == Result::<(), TrackerError>::Err(
                TrackerError::IdTaken(a.id),
            ),
            !tracker_has_id(old(self).classes@, a.id) && !contains_code(
                old(self).classes@,
                code@,
            ) ==> (r matches Err(TrackerError::NoClass(c)) && c@ == code@),
            ({
                let i = idx_of_code(old(self).classes@, code@);
                &&& !tracker_has_id(old(self).classes@, a.id)
                &&& contains_code(old(self).classes@, code@)
                &&& contains_name(old(self).classes@[i].assignments@, a.name@)
            }) ==> (r matches Err(TrackerError::NameTaken(n, c)) && n@ == a.name@ && c@ == code@),
            ({
                let i = idx_of_code(old(self).classes@, code@);
                &&& !tracker_has_id(old(self).classes@, a.id)
                &&& contains_code(old(self).classes@, code@)
                &&& !contains_name(old(self).classes@[i].assignments@, a.name@)
                &&& old(self).classes@[i].total_value + a.weight_or_zero() > 100
            }) ==> (r matches Err(TrackerError::Class(ClassError::TotalValueExceeded(t))) && t
                == old(self).classes@[idx_of_code(old(self).classes@, code@)].total_value
                + a.weight_or_zero()),
            r is Ok ==> {
                let i = idx_of_code(old(self).classes@, code@);
                &&& final(self).classes@.len() == old(self).classes@.len()
                &&& (forall|p: int|
                    0 <= p < old(self).classes@.len() && p != i ==> final(self).classes@[p] == old(
                        self,
                    ).classes@[p])
                &&& final(self).classes@[i].assignments@ == old(
                    self,
                ).classes@[i].assignments@.push(a)
                &&& final(self).classes@[i].total_value == old(self).classes@[i].total_value
                    + a.weight_or_zero()
                &&& final(self).classes@[i].id == old(self).classes@[i].id
                &&& final(self).classes@[i].code == old(self).classes@[i].code
                &&& final(self).index@.len() == old(self).index@.len() + 1
                &&& (forall|k: int|
                    0 <= k < old(self).index@.len() ==> final(self).index@[k] == old(
                        self,
                    ).index@[k])
                &&& final(self).index@.last().0 == a.id
                &&& final(self).index@.last().1@ == code@
                &&& final(self).name == old(self).name
            },
    {
        let code_s: String = code.to_owned();
        if find_index_entry(&self.index, a.id).is_some() {
            proof {
                lemma_id_in_index(*self, a.id);
            }
            return Err(TrackerError::IdTaken(a.id));
        }
        proof {
            lemma_id_in_index(*self, a.id);
        }
        let i = match find_class_index(&self.classes, &code_s) {
            Some(i) => i,
            None => {
                return Err(TrackerError::NoClass(code_s));
            },
        };
        proof {
            assert(contains_code(self.classes@, code@));
            let w = idx_of_code(self.classes@, code@);
            assert(0 <= w < self.classes@.len() && self.classes@[w].code@ == code@);
            assert(w == i as int);
        }
        let cls = &self.classes[i];
        if find_index_by_name(&cls.assignments, &a.name).is_some() {
            return Err(TrackerError::NameTaken(a.name.clone(), code_s));
        }
        let w: u32 = match a.value {
            Some(v) => v,
            None => 0,
        };
        let new_total: u32 = cls.total_value + w;
        if new_total > 100 {
            return Err(TrackerError::Class(ClassError::TotalValueExceeded(new_total)));
        }
        proof {
            if contains_id(self.classes@[i as int].assignments@, a.id) {
                assert(tracker_has_id(self.classes@, a.id));
            }
        }
        let ghost s0 = self.classes@;
        let ghost x0 = self.index@;
        let a_id = a.id;
        let mut c = self.classes.remove(i);
        let added = c.add_assignment(a);
        assert(added is Ok);
        self.classes.insert(i, c);
        self.index.push((a_id, code_s));
        proof {
            let i = i as int;
            let s1 = self.classes@;
            let x1 = self.index@;
            assert(s1 =~= s0.update(i, s1[i]));
            assert(s1[i].assignments@ == s0[i].assignments@.push(a));
            assert forall|p: int| 0 <= p < s1.len() implies (#[trigger] s1[p]).wf() by {
                if p != i {
                    assert(s1[p] == s0[p]);
                }
            }
            assert forall|p: int, q: int| 0 <= p < q < s1.len() implies s1[p].code@
                != s1[q].code@ by {
                assert(s1[p].code@ == s0[p].code@ && s1[q].code@ == s0[q].code@);
            }
            assert forall|k: int| 0 <= k < x1.len() implies entry_ok(s1, #[trigger] x1[k]) by {
                if k < x0.len() {
                    assert(x1[k] == x0[k]);
                    assert(entry_ok(s0, x0[k]));
                    let p = choose|p: int|
                        0 <= p < s0.len() && s0[p].code@ == x0[k].1@ && contains_id(
                            s0[p].assignments@,
                            x0[k].0,
                        );
                    if p != i {
                        assert(s1[p] == s0[p]);
                        assert(entry_ok(s1, x1[k]));
                    } else {
                        assert(s1[i].code@ == s0[i].code@);
                        let j = choose|j: int|
                            0 <= j < s0[i].assignments@.len() && s0[i].assignments@[j].id
                                == x0[k].0;
                        assert(s1[i].assignments@[j] == s0[i].assignments@[j]);
                        assert(contains_id(s1[i].assignments@, x0[k].0));
                        assert(entry_ok(s1, x1[k]));
                    }
                } else {
                    assert(x1[k].0 == a.id && x1[k].1@ == code@);
                    let j = s0[i].assignments@.len() as int;
                    assert(s1[i].assignments@[j] == a);
                    assert(contains_id(s1[i].assignments@, a.id));
                    assert(s1[i].code@ == code@);
                    assert(entry_ok(s1, x1[k]));
                }
            }
            assert forall|p: int, j: int|
                0 <= p < s1.len() && 0 <= j < s1[p].assignments@.len() implies index_has_entry(
                x1,
                (#[trigger] s1[p].assignments@[j]).id,
                s1[p].code@,
            ) by {
                if p != i {
                    assert(s1[p] == s0[p]);
                    assert(index_has_entry(x0, s0[p].assignments@[j].id, s0[p].code@));
                    let k = choose|k: int|
                        0 <= k < x0.len() && x0[k].0 == s0[p].assignments@[j].id && x0[k].1@
                            == s0[p].code@;
                    assert(x1[k] == x0[k]);
                    assert(index_has_entry(x1, s1[p].assignments@[j].id, s1[p].code@));
                } else if j < s0[i].assignments@.len() {
                    assert(s1[i].assignments@[j] == s0[i].assignments@[j]);
                    assert(index_has_entry(x0, s0[i].assignments@[j].id, s0[i].code@));
                    let k = choose|k: int|
                        0 <= k < x0.len() && x0[k].0 == s0[i].assignments@[j].id && x0[k].1@
                            == s0[i].code@;
                    assert(x1[k] == x0[k]);
                    assert(s1[i].code@ == s0[i].code@);
                    assert(index_has_entry(x1, s1[i].assignments@[j].id, s1[i].code@));
                } else {
                    assert(s1[i].assignments@[j] == a);
                    let k = x0.len() as int;
                    assert(x1[k].0 == a.id && x1[k].1@ == code@);
                    assert(s1[i].code@ == code@);
                    assert(index_has_entry(x1, s1[i].assignments@[j].id, s1[i].code@));
                }
            }
            assert forall|k1: int, k2: int| 0 <= k1 < k2 < x1.len() implies x1[k1].0
                != x1[k2].0 by {
                if k2 < x0.len() {
                    assert(x1[k1] == x0[k1] && x1[k2] == x0[k2]);
                } else {
                    assert(x1[k2].0 == a.id);
                    assert(x1[k1] == x0[k1]);
                    if x0[k1].0 == a.id {
                        assert(index_has_id(x0, a.id));
                    }
                }
            }
        }
        Ok(())
    }

    /// Remove and return the tracked assignment with the given id, dropping
    /// its index entry too. Fails exactly when no tracked assignment has the
    /// id, leaving the tracker unchanged. Afterwards the id is tracked
    /// nowhere.
    pub fn remove_assignment(&mut self, id: u32) -> (r: Result<Assignment, TrackerError>)
        requires
            old(self).wf(),
        ensures
            final(self).wf(),
            r is Ok <==> tracker_has_id(old(self).classes@, id),
            !tracker_has_id(old(self).classes@, id) ==> r == Result::<
                Assignment,
                TrackerError,
            >::Err(TrackerError::NoAssignment(id)) && *final(self) == *old(self),
            r matches Ok(a) ==> {
                let i = idx_of_class_with_id(old(self).classes@, id);
                let j = idx_of_id(old(self).classes@[i].assignments@, id);
                let k = idx_in_index(old(self).index@, id);
                &&& a.id == id
                &&& a == old(self).classes@[i].assignments@[j]
                &&& final(self).classes@.len() == old(self).classes@.len()
                &&& (forall|p: int|
                    0 <= p < old(self).classes@.len() && p != i ==> final(self).classes@[p] == old(
                        self,
                    ).classes@[p])
                &&& final(self).classes@[i].assignments@ == old(
                    self,
                ).classes@[i].assignments@.remove(j)
                &&& final(self).classes@[i].total_value == old(self).classes@[i].total_value
                    - a.weight_or_zero()
                &&& final(self).classes@[i].id == old(self).classes@[i].id
                &&& final(self).classes@[i].code == old(self).classes@[i].code
                &&& final(self).index@ == old(self).index@.remove(k)
                &&& final(self).name == old(self).name
                &&& !tracker_has_id(final(self).classes@, id)
            },
    {
        let k = match find_index_entry(&self.index, id) {
            Some(k) => k,
            None => {
                proof {
                    lemma_id_in_index(*self, id);
                }
                return Err(TrackerError::NoAssignment(id));
            },
        };
        proof {
            assert(index_has_id(self.index@, id));
            lemma_id_in_index(*self, id);
            let k2 = idx_in_index(self.index@, id);
            assert(0 <= k2 < self.index@.len() && self.index@[k2].0 == id);
            assert(k2 == k as int);
        }
        let code_s: String = self.index[k].1.clone();
        proof {
            assert(entry_ok(self.classes@, self.index@[k as int]));
        }
        let i = match find_class_index(&self.classes, &code_s) {
            Some(i) => i,
            None => {
                proof {
                    let p = choose|p: int|
                        0 <= p < self.classes@.len() && self.classes@[p].code@
                            == self.index@[k as int].1@ && contains_id(
                            self.classes@[p].assignments@,
                            self.index@[k as int].0,
                        );
                    assert(contains_code(self.classes@, code_s@));
                    assert(false);
                }
                return Err(TrackerError::NoAssignment(id));
            },
        };
        proof {
            let p = choose|p: int|
                0 <= p < self.classes@.len() && self.classes@[p].code@
                    == self.index@[k as int].1@ && contains_id(
                    self.classes@[p].assignments@,
                    self.index@[k as int].0,
                );
            assert(self.classes@[p].code@ == self.classes@[i as int].code@);
            assert(p == i as int);
            assert(contains_id(self.classes@[i as int].assignments@, id));
            let w = idx_of_class_with_id(self.classes@, id);
            assert(0 <= w < self.classes@.len() && contains_id(
                self.classes@[w].assignments@,
                id,
            )) by {
                assert(tracker_has_id(self.classes@, id));
            }
            lemma_one_class_per_id(*self, w, i as int, id);
        }
        let ghost s0 = self.classes@;
        let ghost x0 = self.index@;
        let mut c = self.classes.remove(i);
        let removed = c.remove_assignment(id);
        let a = match removed {
            Ok(a) => a,
            Err(_) => {
                proof {
                    assert(false);
                }
                return Err(TrackerError::NoAssignment(id));
            },
        };
        self.classes.insert(i, c);
        self.index.remove(k);
        proof {
            let i = i as int;
            let k = k as int;
            let j = idx_of_id(s0[i].assignments@, id);
            let s1 = self.classes@;
            let x1 = self.index@;
            assert(s1 =~= s0.update(i, s1[i]));
            assert(s1[i].assignments@ == s0[i].assignments@.remove(j));
            assert forall|p: int| 0 <= p < s1.len() implies (#[trigger] s1[p]).wf() by {
                if p != i {
                    assert(s1[p] == s0[p]);
                }
            }
            assert forall|p: int, q: int| 0 <= p < q < s1.len() implies s1[p].code@
                != s1[q].code@ by {
                assert(s1[p].code@ == s0[p].code@ && s1[q].code@ == s0[q].code@);
            }
            // no class holds `id` any more
            assert forall|p: int|
                0 <= p < s1.len() implies !contains_id(
                (#[trigger] s1[p]).assignments@,
                id,
            ) by {
                if p != i {
                    assert(s1[p] == s0[p]);
                    if contains_id(s0[p].assignments@, id) {
                        lemma_one_class_per_id(*old(self), p, i, id);
                    }
                } else {
                    if contains_id(s1[i].assignments@, id) {
                        let w = choose|w: int|
                            0 <= w < s1[i].assignments@.len() && s1[i].assignments@[w].id == id;
                        if w < j {
                            assert(s1[i].assignments@[w] == s0[i].assignments@[w]);
                            assert(crate::class::ids_unique(s0[i].assignments@));
                            assert(s0[i].assignments@[j].id == id);
                            assert(false);
                        } else {
                            assert(s1[i].assignments@[w] == s0[i].assignments@[w + 1]);
                            assert(crate::class::ids_unique(s0[i].assignments@));
                            assert(s0[i].assignments@[j].id == id);
                            assert(false);
                        }
                    }
                }
            }
            assert forall|k2: int| 0 <= k2 < x1.len() implies entry_ok(s1, #[trigger] x1[k2]) by {
                let k3 = if k2 < k {
                    k2
                } else {
                    k2 + 1
                };
                assert(x1[k2] == x0[k3]);
                assert(x0[k3].0 != id) by {
                    assert(x0[k].0 == id);
                }
                assert(entry_ok(s0, x0[k3]));
                let p = choose|p: int|
                    0 <= p < s0.len() && s0[p].code@ == x0[k3].1@ && contains_id(
                        s0[p].assignments@,
                        x0[k3].0,
                    );
                if p != i {
                    assert(s1[p] == s0[p]);
                    assert(entry_ok(s1, x1[k2]));
                } else {
                    crate::class::lemma_contains_id_remove(s0[i].assignments@, j, x0[k3].0);
                    assert(contains_id(s1[i].assignments@, x0[k3].0));
                    assert(s1[i].code@ == s0[i].code@);
                    assert(entry_ok(s1, x1[k2]));
                }
            }
            assert forall|p: int, j2: int|
                0 <= p < s1.len() && 0 <= j2 < s1[p].assignments@.len() implies index_has_entry(
                x1,
                (#[trigger] s1[p].assignments@[j2]).id,
                s1[p].code@,
            ) by {
                let id2 = s1[p].assignments@[j2].id;
                assert(id2 != id);
                let cd = s1[p].code@;
                if p != i {
                    assert(s1[p] == s0[p]);
                    assert(index_has_entry(x0, id2, cd));
                } else {
                    let j3 = if j2 < j {
                        j2
                    } else {
                        j2 + 1
                    };
                    assert(s1[i].assignments@[j2] == s0[i].assignments@[j3]);
                    assert(s1[i].code@ == s0[i].code@);
                    assert(index_has_entry(x0, id2, cd));
                }
                let k3 = choose|k3: int|
                    0 <= k3 < x0.len() && x0[k3].0 == id2 && x0[k3].1@ == cd;
                assert(k3 != k) by {
                    assert(x0[k].0 == id);
                }
                if k3 < k {
                    assert(x1[k3] == x0[k3]);
                } else {
                    assert(x1[k3 - 1] == x0[k3]);
                }
                assert(index_has_entry(x1, id2, cd));
            }
            assert forall|k1: int, k2: int| 0 <= k1 < k2 < x1.len() implies x1[k1].0
                != x1[k2].0 by {
                let k1b = if k1 < k {
                    k1
                } else {
                    k1 + 1
                };
                let k2b = if k2 < k {
                    k2
                } else {
                    k2 + 1
                };
                assert(x1[k1] == x0[k1b] && x1[k2] == x0[k2b]);
            }
        }
        Ok(a)
    }

    /// Award a mark to the tracked assignment with the given id, wherever it
    /// lives. Fails with `NoAssignment` when the id is not tracked, and
    /// rejects an invalid mark as [`Assignment::set_mark`] does; on failure
    /// the tracker is unchanged. On success the assignment holds the mark and
    /// its status is `Marked`.
    pub fn set_mark(&mut self, assign_id: u32, mark: Mark) -> (r: Result<(), TrackerError>)
        requires
            old(self).wf(),
        ensures
            final(self).wf(),
            r is Ok <==> tracker_has_id(old(self).classes@, assign_id) && mark.valid(),
            !tracker_has_id(old(self).classes@, assign_id) ==> r == Result::<
                (),
                TrackerError,
            >::Err(TrackerError::NoAssignment(assign_id)),
            tracker_has_id(old(self).classes@, assign_id) && !mark.valid() ==> r == Result::<
                (),
                TrackerError,
            >::Err(
                TrackerError::Class(
                    ClassError::Assignment(
                        crate::assignment::AssignmentError::Mark(mark.rejection()),
                    ),
                ),
            ),
            r is Err ==> *final(self) == *old(self),
            r is Ok ==> {
                let i = idx_of_class_with_id(old(self).classes@, assign_id);
                let j = idx_of_id(old(self).classes@[i].assignments@, assign_id);
                &&& final(self).classes@.len() == old(self).classes@.len()
                &&& (forall|p: int|
                    0 <= p < old(self).classes@.len() && p != i ==> final(self).classes@[p] == old(
                        self,
                    ).classes@[p])
                &&& final(self).classes@[i].assignments@ == old(
                    self,
                ).classes@[i].assignments@.update(
                    j,
                    (Assignment {
                        mark: Some(mark),
                        status: crate::status::Status::Marked,
                        ..old(self).classes@[i].assignments@[j]
                    }),
                )
                &&& final(self).classes@[i].total_value == old(self).classes@[i].total_value
                &&& final(self).classes@[i].id == old(self).classes@[i].id
                &&& final(self).classes@[i].code == old(self).classes@[i].code
                &&& final(self).index@ == old(self).index@
                &&& final(self).name == old(self).name
            },
    {
        let k = match find_index_entry(&self.index, assign_id) {
            Some(k) => k,
            None => {
                proof {
                    lemma_id_in_index(*self, assign_id);
                }
                return Err(TrackerError::NoAssignment(assign_id));
            },
        };
        proof {
            assert(index_has_id(self.index@, assign_id));
            lemma_id_in_index(*self, assign_id);
        }
        if let Err(e) = mark.check_valid() {
            return Err(TrackerError::Class(ClassError::Assignment(
                crate::assignment::AssignmentError::Mark(e),
            )));
        }
        let code_s: String = self.index[k].1.clone();
        proof {
            assert(entry_ok(self.classes@, self.index@[k as int]));
        }
        let i = match find_class_index(&self.classes, &code_s) {
            Some(i) => i,
            None => {
                proof {
                    let p = choose|p: int|
                        0 <= p < self.classes@.len() && self.classes@[p].code@
                            == self.index@[k as int].1@ && contains_id(
                            self.classes@[p].assignments@,
                            self.index@[k as int].0,
                        );
                    assert(contains_code(self.classes@, code_s@));
                    assert(false);
                }
                return Err(TrackerError::NoAssignment(assign_id));
            },
        };
        proof {
            let p = choose|p: int|
                0 <= p < self.classes@.len() && self.classes@[p].code@
                    == self.index@[k as int].1@ && contains_id(
                    self.classes@[p].assignments@,
                    self.index@[k as int].0,
                );
            assert(self.classes@[p].code@ == self.classes@[i as int].code@);
            assert(p == i as int);
            assert(contains_id(self.classes@[i as int].assignments@, assign_id));
            let w = idx_of_class_with_id(self.classes@, assign_id);
            assert(0 <= w < self.classes@.len() && contains_id(
                self.classes@[w].assignments@,
                assign_id,
            )) by {
                assert(tracker_has_id(self.classes@, assign_id));
            }
            lemma_one_class_per_id(*self, w, i as int, assign_id);
        }
        let ghost s0 = self.classes@;
        let ghost x0 = self.index@;
        let mut c = self.classes.remove(i);
        let marked = c.set_mark(assign_id, mark);
        assert(marked is Ok);
        self.classes.insert(i, c);
        proof {
            let i = i as int;
            let j = idx_of_id(s0[i].assignments@, assign_id);
            let s1 = self.classes@;
            assert(s1 =~= s0.update(i, s1[i]));
            assert forall|p: int| 0 <= p < s1.len() implies (#[trigger] s1[p]).wf() by {
                if p != i {
                    assert(s1[p] == s0[p]);
                }
            }
            assert forall|p: int, q: int| 0 <= p < q < s1.len() implies s1[p].code@
                != s1[q].code@ by {
                assert(s1[p].code@ == s0[p].code@ && s1[q].code@ == s0[q].code@);
            }
            // ids within each class are untouched by the mark update
            assert forall|p: int, j2: int|
                0 <= p < s1.len() && 0 <= j2 < s1[p].assignments@.len() implies (
            #[trigger] s1[p].assignments@[j2]).id == s0[p].assignments@[j2].id by {
                if p != i {
                    assert(s1[p] == s0[p]);
                } else if j2 != j {
                    assert(s1[i].assignments@[j2] == s0[i].assignments@[j2]);
                }
            }
            assert forall|k2: int| 0 <= k2 < x0.len() implies entry_ok(s1, #[trigger] x0[k2]) by {
                assert(entry_ok(s0, x0[k2]));
                let p = choose|p: int|
                    0 <= p < s0.len() && s0[p].code@ == x0[k2].1@ && contains_id(
                        s0[p].assignments@,
                        x0[k2].0,
                    );
                let w = choose|w: int|
                    0 <= w < s0[p].assignments@.len() && s0[p].assignments@[w].id == x0[k2].0;
                assert(s1[p].assignments@[w].id == x0[k2].0);
                assert(s1[p].code@ == s0[p].code@);
                assert(contains_id(s1[p].assignments@, x0[k2].0));
                assert(entry_ok(s1, x0[k2]));
            }
            assert forall|p: int, j2: int|
                0 <= p < s1.len() && 0 <= j2 < s1[p].assignments@.len() implies index_has_entry(
                x0,
                (#[trigger] s1[p].assignments@[j2]).id,
                s1[p].code@,
            ) by {
                assert(s1[p].assignments@[j2].id == s0[p].assignments@[j2].id);
                assert(s1[p].code@ == s0[p].code@);
                assert(index_has_entry(x0, s0[p].assignments@[j2].id, s0[p].code@));
            }
        }
        Ok(())
    }

    /// The assignments of the class with the given code, as references in
    /// class order; empty when no class has the code.
    pub fn assignments_from_class(&self, code: &str) -> (r: Vec<&Assignment>)
        requires
            self.wf(),
        ensures
            contains_code(self.classes@, code@) ==> {
                let i = idx_of_code(self.classes@, code@);
                &&& r@.len() == self.classes@[i].assignments@.len()
                &&& (forall|j: int|
                    0 <= j < r@.len() ==> *(#[trigger] r@[j]) == self.classes@[i].assignments@[j])
            },
            !contains_code(self.classes@, code@) ==> r@.len() == 0,
    {
        let mut out: Vec<&Assignment> = Vec::new();
        let class = match self.get_class(code) {
            Some(c) => c,
            None => {
                return out;
            },
        };
        let n = class.assignments.len();
        let mut j: usize = 0;
        while j < n
            invariant
                n == class.assignments@.len(),
                j <= n,
                out@.len() == j,
                forall|q: int| 0 <= q < j ==> *(#[trigger] out@[q]) == class.assignments@[q],
            decreases n - j,
        {
            out.push(&class.assignments[j]);
            j += 1;
        }
        out
    }

    /// Remove and return the class with the given code, together with all
    /// its assignments; every index entry for the class is dropped, so none
    /// of those assignment ids is tracked afterwards. Fails exactly when no
    /// class has the code, leaving the tracker unchanged.
    pub fn remove_class(&mut self, code: &str) -> (r: Result<Class, TrackerError>)
        requires
            old(self).wf(),
        ensures
            final(self).wf(),
            r is Ok <==> contains_code(old(self).classes@, code@),
            !contains_code(old(self).classes@, code@) ==> (r matches Err(TrackerError::NoClass(c))
                && c@ == code@) && *final(self) == *old(self),
            r matches Ok(c) ==> {
                let i = idx_of_code(old(self).classes@, code@);
                &&& c == old(self).classes@[i]
                &&& final(self).classes@ == old(self).classes@.remove(i)
                &&& final(self).index@ == filter_out_code(old(self).index@, code@)
                &&& final(self).name == old(self).name
                &&& (forall|id: u32|
                    contains_id(c.assignments@, id) ==> !tracker_has_id(
                        final(self).classes@,
                        id,
                    ) && !index_has_id(final(self).index@, id))
            },
    {
        let code_s: String = code.to_owned();
        let i = match find_class_index(&self.classes, &code_s) {
            Some(i) => i,
            None => {
                return Err(TrackerError::NoClass(code_s));
            },
        };
        proof {
            assert(contains_code(self.classes@, code@));
            let w = idx_of_code(self.classes@, code@);
            assert(0 <= w < self.classes@.len() && self.classes@[w].code@ == code@);
            assert(w == i as int);
        }
        let ghost s0 = self.classes@;
        let ghost x0 = self.index@;
        let c = self.classes.remove(i);
        let mut new_index: Vec<(u32, String)> = Vec::new();
        let n = self.index.len();
        let mut k: usize = 0;
        while k < n
            invariant
                n == self.index@.len(),
                self.index@ == x0,
                self.classes@ == s0.remove(i as int),
                self.name == old(self).name,
                k <= n,
                code_s@ == code@,
                new_index@ == filter_out_code(x0.subrange(0, k as int), code@),
            decreases n - k,
        {
            proof {
                assert(x0.subrange(0, k as int + 1).drop_last() =~= x0.subrange(0, k as int));
                assert(x0.subrange(0, k as int + 1).last() == x0[k as int]);
            }
            let keep = !(self.index[k].1 == code_s);
            if keep {
                let id0 = self.index[k].0;
                let scopy = self.index[k].1.clone();
                proof {
                    assert((id0, scopy) == x0[k as int]);
                }
                new_index.push((id0, scopy));
            }
            k += 1;
        }
        proof {
            assert(x0.subrange(0, n as int) =~= x0);
        }
        self.index = new_index;
        proof {
            let i = i as int;
            let s1 = self.classes@;
            let x1 = self.index@;
            assert(x1 == filter_out_code(x0, code@));
            lemma_filter_out_code_props(x0, code@);
            lemma_filter_out_code_unique(x0, code@);
            assert forall|p: int| 0 <= p < s1.len() implies (#[trigger] s1[p]).wf() by {
                let pb = if p < i {
                    p
                } else {
                    p + 1
                };
                assert(s1[p] == s0[pb]);
            }
            assert forall|p: int, q: int| 0 <= p < q < s1.len() implies s1[p].code@
                != s1[q].code@ by {
                let pb = if p < i {
                    p
                } else {
                    p + 1
                };
                let qb = if q < i {
                    q
                } else {
                    q + 1
                };
                assert(s1[p] == s0[pb] && s1[q] == s0[qb]);
            }
            assert forall|k2: int| 0 <= k2 < x1.len() implies entry_ok(s1, #[trigger] x1[k2]) by {
                assert(x0.contains(x1[k2]) && x1[k2].1@ != code@);
                let k3 = choose|k3: int| 0 <= k3 < x0.len() && x0[k3] == x1[k2];
                assert(entry_ok(s0, x0[k3]));
                let p = choose|p: int|
                    0 <= p < s0.len() && s0[p].code@ == x0[k3].1@ && contains_id(
                        s0[p].assignments@,
                        x0[k3].0,
                    );
                assert(p != i) by {
                    assert(s0[i].code@ == code@);
                }
                let pb = if p < i {
                    p
                } else {
                    p - 1
                };
                assert(s1[pb] == s0[p]);
                assert(entry_ok(s1, x1[k2]));
            }
            assert forall|p: int, j2: int|
                0 <= p < s1.len() && 0 <= j2 < s1[p].assignments@.len() implies index_has_entry(
                x1,
                (#[trigger] s1[p].assignments@[j2]).id,
                s1[p].code@,
            ) by {
                let pb = if p < i {
                    p
                } else {
                    p + 1
                };
                assert(s1[p] == s0[pb]);
                assert(pb != i);
                assert(index_has_entry(x0, s0[pb].assignments@[j2].id, s0[pb].code@));
                let k3 = choose|k3: int|
                    0 <= k3 < x0.len() && x0[k3].0 == s0[pb].assignments@[j2].id && x0[k3].1@
                        == s0[pb].code@;
                assert(s0[pb].code@ != code@) by {
                    assert(s0[i].code@ == code@);
                    assert(codes_unique(s0));
                }
                assert(x0[k3].1@ != code@);
                assert(x1.contains(x0[k3]));
                let k4 = choose|k4: int| 0 <= k4 < x1.len() && x1[k4] == x0[k3];
                assert(index_has_entry(x1, s1[p].assignments@[j2].id, s1[p].code@));
            }
            // the removed class's assignment ids are gone
            assert forall|id: u32| contains_id(s0[i].assignments@, id) implies !tracker_has_id(
                s1,
                id,
            ) && !index_has_id(x1, id) by {
                if tracker_has_id(s1, id) {
                    let p = choose|p: int| 0 <= p < s1.len() && contains_id(s1[p].assignments@, id);
                    let pb = if p < i {
                        p
                    } else {
                        p + 1
                    };
                    assert(s1[p] == s0[pb]);
                    assert(pb != i);
                    lemma_one_class_per_id(*old(self), pb, i, id);
                    assert(false);
                }
                if index_has_id(x1, id) {
                    assert(index_has_id(x0, id));
                    let k3 = choose|k3: int| 0 <= k3 < x1.len() && x1[k3].0 == id;
                    assert(x0.contains(x1[k3]) && x1[k3].1@ != code@);
                    let k4 = choose|k4: int| 0 <= k4 < x0.len() && x0[k4] == x1[k3];
                    assert(entry_ok(s0, x0[k4]));
                    let p = choose|p: int|
                        0 <= p < s0.len() && s0[p].code@ == x0[k4].1@ && contains_id(
                            s0[p].assignments@,
                            x0[k4].0,
                        );
                    assert(p != i) by {
                        assert(s0[i].code@ == code@);
                    }
                    lemma_one_class_per_id(*old(self), p, i, id);
                    assert(false);
                }
            }
        }
        Ok(c)
    }

    /// The tracked class with the given code, if any.
    pub fn get_class(&self, code: &str) -> (r: Option<&Class>)
        requires
            self.wf(),
        ensures
            r is Some <==> contains_code(self.classes@, code@),
            r matches Some(c) ==> *c == self.classes@[idx_of_code(self.classes@, code@)]
                && c.code@ == code@,
    {
        let code_s: String = code.to_owned();
        match find_class_index(&self.classes, &code_s) {
            Some(i) => {
                proof {
                    assert(contains_code(self.classes@, code@));
                    let k = idx_of_code(self.classes@, code@);
                    assert(0 <= k < self.classes@.len() && self.classes@[k].code@ == code@);
                    assert(k == i as int);
                }
                Some(&self.classes[i])
            },
            None => None,
        }
    }

    /// The tracked assignment with the given id, if any, wherever it lives.
    pub fn get_assignment(&self, id: u32) -> (r: Option<&Assignment>)
        requires
            self.wf(),
        ensures
            r is Some <==> tracker_has_id(self.classes@, id),
            r matches Some(a) ==> a.id == id && {
                let i = idx_of_class_with_id(self.classes@, id);
                *a == self.classes@[i].assignments@[idx_of_id(self.classes@[i].assignments@, id)]
            },
    {
        let n = self.classes.len();
        let mut i: usize = 0;
        while i < n
            invariant
                self.wf(),
                n == self.classes@.len(),
                i <= n,
                forall|p: int| 0 <= p < i ==> !contains_id(
                    (#[trigger] self.classes@[p]).assignments@,
                    id,
                ),
            decreases n - i,
        {
            let c = &self.classes[i];
            if let Some(a) = c.get_assignment(id) {
                proof {
                    assert(contains_id(self.classes@[i as int].assignments@, id));
                    assert(tracker_has_id(self.classes@, id));
                    let w = idx_of_class_with_id(self.classes@, id);
                    assert(0 <= w < self.classes@.len() && contains_id(
                        self.classes@[w].assignments@,
                        id,
                    ));
                    lemma_one_class_per_id(*self, w, i as int, id);
                }
                return Some(a);
            }
            i += 1;
        }
        proof {
            if tracker_has_id(self.classes@, id) {
                let p = choose|p: int|
                    0 <= p < self.classes@.len() && contains_id(self.classes@[p].assignments@, id);
                assert(!contains_id(self.classes@[p].assignments@, id));
            }
        }
        None
    }
}

} // verus!
