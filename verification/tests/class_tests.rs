use tracker_core::assignment::{Assignment, AssignmentError};
use tracker_core::class::{Class, ClassError};
use tracker_core::mark::{InvalidMarkError, Mark};
use tracker_core::status::Status;

#[test]
fn new_class_is_empty() {
    let c = Class::new(0, "CS101");
    assert_eq!(0, c.id());
    assert_eq!("CS101", c.code());
    assert_eq!("CS101", c.name());
    assert_eq!(0, c.total_value());
    assert!(c.assignments().is_empty());
}

#[test]
fn weight_sum_scenario() {
    // concrete scenario: a 60-weight add succeeds, a second 50-weight add
    // would push the sum to 110 and must fail, leaving the total at 60
    let mut c = Class::new(0, "CS101");
    let a1 = Assignment::new(0, "A1", 60).unwrap();
    assert_eq!(Ok(()), c.add_assignment(a1));
    assert_eq!(60, c.total_value());

    let a2 = Assignment::new(1, "A2", 50).unwrap();
    assert_eq!(Err(ClassError::TotalValueExceeded(110)), c.add_assignment(a2));
    assert_eq!(60, c.total_value());
    assert_eq!(1, c.assignments().len());
}

#[test]
fn weight_sum_tracks_every_add() {
    let mut c = Class::new(0, "CS101");
    for (i, w) in [25u32, 25, 25, 25].iter().enumerate() {
        let a = Assignment::new(i as u32, &format!("A{}", i), *w).unwrap();
        assert!(c.add_assignment(a).is_ok());
        assert_eq!(25 * (i as u32 + 1), c.total_value());
    }
    // the class is now full: even a zero-total bump past 100 fails
    let extra = Assignment::new(9, "Extra", 1).unwrap();
    assert_eq!(Err(ClassError::TotalValueExceeded(101)), c.add_assignment(extra));
    assert_eq!(100, c.total_value());
}

#[test]
fn add_duplicate_id() {
    let mut c = Class::new(0, "CS101");
    c.add_assignment(Assignment::new(1, "A1", 10).unwrap()).unwrap();
    let dup = Assignment::new(1, "A2", 10).unwrap();
    assert_eq!(Err(ClassError::IdTaken(1)), c.add_assignment(dup));
    assert_eq!(10, c.total_value());
}

#[test]
fn add_duplicate_name() {
    let mut c = Class::new(0, "CS101");
    c.add_assignment(Assignment::new(1, "A1", 10).unwrap()).unwrap();
    let dup = Assignment::new(2, "A1", 10).unwrap();
    assert_eq!(
        Err(ClassError::NameTaken(String::from("A1"))),
        c.add_assignment(dup)
    );
}

#[test]
fn value_checked_before_identity() {
    // the weight bound fires before the id and name checks
    let mut c = Class::new(0, "CS101");
    c.add_assignment(Assignment::new(1, "A1", 60).unwrap()).unwrap();
    let clash = Assignment::new(1, "A1", 50).unwrap();
    assert_eq!(Err(ClassError::TotalValueExceeded(110)), c.add_assignment(clash));
}

#[test]
fn remove_restores_total() {
    // removal is the inverse of addition
    let mut c = Class::new(0, "CS101");
    let a = Assignment::new(4, "Exam", 40).unwrap();
    let before = c.total_value();
    c.add_assignment(a.clone()).unwrap();
    assert_eq!(40, c.total_value());

    let removed = c.remove_assignment(4).unwrap();
    assert_eq!(a, removed);
    assert_eq!(before, c.total_value());
    assert_eq!(0, c.total_value());
    assert!(c.assignments().is_empty());
}

#[test]
fn remove_missing() {
    let mut c = Class::new(0, "CS101");
    assert_eq!(Err(ClassError::NotFound(9)), c.remove_assignment(9));
}

#[test]
fn get_assignment_lookup() {
    let mut c = Class::new(0, "CS101");
    c.add_assignment(Assignment::new(1, "A1", 10).unwrap()).unwrap();
    c.add_assignment(Assignment::new(2, "A2", 10).unwrap()).unwrap();
    assert_eq!("A2", c.get_assignment(2).unwrap().name());
    assert!(c.get_assignment(3).is_none());
}

#[test]
fn set_mark_on_assignment() {
    let mut c = Class::new(0, "CS101");
    c.add_assignment(Assignment::new(1, "A1", 10).unwrap()).unwrap();
    assert_eq!(Ok(()), c.set_mark(1, Mark::Percent(75)));
    let a = c.get_assignment(1).unwrap();
    assert_eq!(Some(Mark::Percent(75)), a.mark());
    assert_eq!(Status::Marked, a.status());
}

#[test]
fn set_mark_errors() {
    let mut c = Class::new(0, "CS101");
    c.add_assignment(Assignment::new(1, "A1", 10).unwrap()).unwrap();
    assert_eq!(Err(ClassError::NotFound(2)), c.set_mark(2, Mark::Percent(75)));
    assert_eq!(
        Err(ClassError::Assignment(AssignmentError::Mark(
            InvalidMarkError::PercentOutOfRange(175)
        ))),
        c.set_mark(1, Mark::Percent(175))
    );
    assert_eq!(None, c.get_assignment(1).unwrap().mark());
}

#[test]
fn default_class() {
    let c = Class::default();
    assert_eq!("DEFAULT", c.code());
    assert_eq!(0, c.total_value());
}
