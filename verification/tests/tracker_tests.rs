use tracker_core::assignment::{Assignment, AssignmentError};
use tracker_core::mark::{InvalidMarkError, Mark};
use tracker_core::status::Status;
use tracker_core::class::{Class, ClassError};
use tracker_core::tracker::{Tracker, TrackerError};

#[test]
fn new_tracker_is_empty() {
    let t = Tracker::new("My Tracker");
    assert_eq!("My Tracker", t.name());
    assert!(t.classes().is_empty());
}

#[test]
fn add_class() {
    for s in ["TEST123", "OTHER456", "ANOTHER", "MyClassCode", "Test123"] {
        let mut t = Tracker::default();
        assert!(t.add_class(Class::new(0, s)).is_ok());

        // double add
        assert_eq!(
            Err(TrackerError::CodeTaken(String::from(s))),
            t.add_class(Class::new(1, s))
        );
        assert_eq!(1, t.classes().len());
    }
}

#[test]
fn remove_class() {
    for s in ["TEST123", "OTHER456", "ANOTHER", "MyClassCode", "Test123"] {
        let mut t = Tracker::default();
        assert!(t.add_class(Class::new(0, s)).is_ok());
        assert!(t.remove_class(s).is_ok());

        // double remove
        assert_eq!(Err(TrackerError::NoClass(String::from(s))), t.remove_class(s));
    }
}

#[test]
fn same_id_across_tracker() {
    // concrete scenario: the global id check fires before class-level checks
    let mut t = Tracker::new("T");
    t.add_class(Class::new(0, "C1")).unwrap();
    let exam = Assignment::new(5, "Exam", 10).unwrap();
    assert_eq!(Ok(()), t.add_assignment("C1", exam));
    let quiz = Assignment::new(5, "Quiz", 10).unwrap();
    assert_eq!(Err(TrackerError::IdTaken(5)), t.add_assignment("C1", quiz));
}

#[test]
fn same_id_in_other_class() {
    let mut t = Tracker::new("T");
    t.add_class(Class::new(0, "C1")).unwrap();
    t.add_class(Class::new(1, "C2")).unwrap();
    t.add_assignment("C1", Assignment::new(5, "Exam", 10).unwrap()).unwrap();
    assert_eq!(
        Err(TrackerError::IdTaken(5)),
        t.add_assignment("C2", Assignment::new(5, "Quiz", 10).unwrap())
    );
}

#[test]
fn same_name_within_class() {
    let mut t = Tracker::default();
    t.add_class(Class::new(0, "DEFAULT")).unwrap();
    t.add_assignment("DEFAULT", Assignment::new(0, "Test 1", 10).unwrap()).unwrap();
    assert_eq!(
        Err(TrackerError::NameTaken(String::from("Test 1"), String::from("DEFAULT"))),
        t.add_assignment("DEFAULT", Assignment::new(1, "Test 1", 10).unwrap())
    );
}

#[test]
fn same_name_in_other_class_is_fine() {
    let mut t = Tracker::default();
    t.add_class(Class::new(0, "C1")).unwrap();
    t.add_class(Class::new(1, "C2")).unwrap();
    t.add_assignment("C1", Assignment::new(0, "Exam", 10).unwrap()).unwrap();
    assert!(t.add_assignment("C2", Assignment::new(1, "Exam", 10).unwrap()).is_ok());
}

#[test]
fn no_class() {
    let mut t = Tracker::default();
    assert_eq!(
        Err(TrackerError::NoClass(String::from("Class"))),
        t.add_assignment("Class", Assignment::new(0, "Test 1", 10).unwrap())
    );
}

#[test]
fn class_total_value_ok() {
    for (a1, a2) in [(25, 75), (50, 50), (75, 25), (99, 1)] {
        let mut t = Tracker::default();
        t.add_class(Class::new(0, "DEFAULT")).unwrap();
        assert!(t
            .add_assignment("DEFAULT", Assignment::new(0, "Test 1", a1).unwrap())
            .is_ok());
        assert!(t
            .add_assignment("DEFAULT", Assignment::new(1, "Test 2", a2).unwrap())
            .is_ok());
    }
}

#[test]
fn class_total_value_err() {
    for (a1, a2) in [(25u32, 100u32), (50, 55), (75, 30), (100, 1)] {
        let mut t = Tracker::default();
        t.add_class(Class::new(0, "DEFAULT")).unwrap();
        assert!(t
            .add_assignment("DEFAULT", Assignment::new(0, "Test 1", a1).unwrap())
            .is_ok());
        assert_eq!(
            Err(TrackerError::Class(ClassError::TotalValueExceeded(a1 + a2))),
            t.add_assignment("DEFAULT", Assignment::new(1, "Test 2", a2).unwrap())
        );
    }
}

#[test]
fn remove_assignment() {
    for s in ["Test 1", "Assignment 4", "Exam", "MY ASSESSMENT", "ASSESSMENT"] {
        let mut t = Tracker::default();
        assert!(t.add_class(Class::new(0, "TEST123")).is_ok());
        assert!(t.add_assignment("TEST123", Assignment::new(1, s, 10).unwrap()).is_ok());
        let removed = t.remove_assignment(1).unwrap();
        assert_eq!(s, removed.name());
        assert_eq!(1, removed.id());

        // double remove
        assert_eq!(Err(TrackerError::NoAssignment(1)), t.remove_assignment(1));
    }
}

#[test]
fn remove_assignment_restores_class_total() {
    let mut t = Tracker::default();
    t.add_class(Class::new(0, "TEST123")).unwrap();
    t.add_assignment("TEST123", Assignment::new(1, "Exam", 40).unwrap()).unwrap();
    assert_eq!(40, t.get_class("TEST123").unwrap().total_value());
    t.remove_assignment(1).unwrap();
    assert_eq!(0, t.get_class("TEST123").unwrap().total_value());
}

#[test]
fn remove_class_clears_index() {
    // concrete scenario: removing a class removes its assignments' index
    // entries, so the ids resolve to nothing afterwards
    let mut t = Tracker::new("T");
    t.add_class(Class::new(0, "C1")).unwrap();
    t.add_class(Class::new(1, "C2")).unwrap();
    t.add_assignment("C1", Assignment::new(5, "Exam", 10).unwrap()).unwrap();
    t.add_assignment("C2", Assignment::new(6, "Quiz", 10).unwrap()).unwrap();

    let removed = t.remove_class("C1").unwrap();
    assert_eq!("C1", removed.code());
    assert_eq!(1, removed.assignments().len());

    assert!(t.get_assignment(5).is_none());
    assert!(t.get_assignment(6).is_some());
    // the freed id can be used again
    assert!(t.add_assignment("C2", Assignment::new(5, "Exam", 10).unwrap()).is_ok());
}

#[test]
fn add_class_with_existing_assignments() {
    let mut t = Tracker::new("T");
    let mut prefilled = Class::new(0, "C1");
    prefilled.add_assignment(Assignment::new(5, "Exam", 10).unwrap()).unwrap();
    assert!(t.add_class(prefilled).is_ok());
    assert!(t.get_assignment(5).is_some());

    // a second class carrying the same assignment id is refused whole
    let mut clash = Class::new(1, "C2");
    clash.add_assignment(Assignment::new(5, "Quiz", 10).unwrap()).unwrap();
    assert_eq!(Err(TrackerError::IdTaken(5)), t.add_class(clash));
    assert_eq!(1, t.classes().len());
}

#[test]
fn lookups() {
    let mut t = Tracker::new("T");
    t.add_class(Class::new(0, "C1")).unwrap();
    t.add_assignment("C1", Assignment::new(5, "Exam", 10).unwrap()).unwrap();

    assert_eq!("C1", t.get_class("C1").unwrap().code());
    assert!(t.get_class("C2").is_none());
    assert_eq!("Exam", t.get_assignment(5).unwrap().name());
    assert!(t.get_assignment(6).is_none());
}

#[test]
fn failure_leaves_tracker_unchanged() {
    let mut t = Tracker::new("T");
    t.add_class(Class::new(0, "C1")).unwrap();
    t.add_assignment("C1", Assignment::new(5, "Exam", 60).unwrap()).unwrap();
    let snapshot = t.clone();

    assert!(t.add_class(Class::new(9, "C1")).is_err());
    assert!(t.add_assignment("C1", Assignment::new(5, "Quiz", 10).unwrap()).is_err());
    assert!(t.add_assignment("C1", Assignment::new(6, "Exam", 10).unwrap()).is_err());
    assert!(t.add_assignment("C1", Assignment::new(6, "Final", 50).unwrap()).is_err());
    assert!(t.add_assignment("C9", Assignment::new(6, "Final", 10).unwrap()).is_err());
    assert!(t.remove_assignment(77).is_err());
    assert!(t.remove_class("C9").is_err());

    assert_eq!(snapshot, t);
}

#[test]
fn set_mark_through_tracker() {
    let mut t = Tracker::new("T");
    t.add_class(Class::new(0, "C1")).unwrap();
    t.add_assignment("C1", Assignment::new(5, "Exam", 10).unwrap()).unwrap();

    assert_eq!(Ok(()), t.set_mark(5, Mark::Percent(75)));
    let a = t.get_assignment(5).unwrap();
    assert_eq!(Some(Mark::Percent(75)), a.mark());
    assert_eq!(Status::Marked, a.status());

    assert_eq!(Err(TrackerError::NoAssignment(6)), t.set_mark(6, Mark::Percent(75)));
    assert_eq!(
        Err(TrackerError::Class(ClassError::Assignment(AssignmentError::Mark(
            InvalidMarkError::PercentOutOfRange(175)
        )))),
        t.set_mark(5, Mark::Percent(175))
    );
    assert_eq!(Some(Mark::Percent(75)), t.get_assignment(5).unwrap().mark());
}

#[test]
fn assignments_from_class() {
    for (a, b) in [(0u32, 0u32), (1, 0), (2, 3), (4, 4), (5, 7)] {
        let mut t = Tracker::default();
        t.add_class(Class::new(0, "CLASS A")).unwrap();
        t.add_class(Class::new(1, "CLASS B")).unwrap();
        for i in 0..a {
            t.add_assignment("CLASS A", Assignment::new(i, &format!("A{}", i), 1).unwrap())
                .unwrap();
        }
        for i in 0..b {
            t.add_assignment("CLASS B", Assignment::new(i + a, &format!("A{}", i), 1).unwrap())
                .unwrap();
        }

        let va = t.assignments_from_class("CLASS A");
        assert_eq!(va.len(), a as usize);

        let vb = t.assignments_from_class("CLASS B");
        assert_eq!(vb.len(), b as usize);

        assert!(t.assignments_from_class("CLASS C").is_empty());
    }
}

#[test]
fn extreme_values() {
    let mut t = Tracker::new("T");
    t.add_class(Class::new(u32::MAX, "C1")).unwrap();
    let long_name = "n".repeat(tracker_core::assignment::MAX_NAME_LEN);
    t.add_assignment("C1", Assignment::new(u32::MAX, &long_name, 100).unwrap()).unwrap();
    assert_eq!(100, t.get_class("C1").unwrap().total_value());
    assert_eq!(long_name, *t.get_assignment(u32::MAX).unwrap().name());
    let removed = t.remove_assignment(u32::MAX).unwrap();
    assert_eq!(u32::MAX, removed.id());
    assert_eq!(0, t.get_class("C1").unwrap().total_value());
}

#[test]
fn default_tracker() {
    let t = Tracker::default();
    assert_eq!("Default Tracker", t.name());
    assert!(t.classes().is_empty());
}
