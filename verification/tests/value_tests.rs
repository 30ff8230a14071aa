use tracker_core::args::Args;
use tracker_core::grade::{grade_to_pct, pct_to_grade, Grade, Modifier};
use tracker_core::invalid_error::InvalidError;
use tracker_core::out_of::{Error as OutOfError, OutOf};
use tracker_core::parse_error::AssignmentParseError;
use tracker_core::percent::{Error as PercentError, Percent};

#[test]
fn percent_new() {
    for pct in [u8::MIN, 1, 50, 99, 100] {
        let percent = Percent::new(pct).expect("value within range");
        assert_eq!(percent.value(), pct);
    }
}

#[test]
fn percent_new_out_of_range() {
    for pct in [101, 200, u8::MAX] {
        assert_eq!(Percent::new(pct), Err(PercentError::OutOfRange(pct)));
    }
}

#[test]
fn percent_zero_and_average() {
    assert_eq!(0, Percent::zero().value());
    let a = Percent::new(50).unwrap();
    let b = Percent::new(100).unwrap();
    assert_eq!(75, a.average(b).value());
    // rounding is downward
    let c = Percent::new(1).unwrap();
    assert_eq!(0, Percent::zero().average(c).value());
}

#[test]
fn percent_average_many() {
    // the fold starts at zero: (0 avg 100) = 50, (50 avg 100) = 75
    let v = vec![Percent::new(100).unwrap(), Percent::new(100).unwrap()];
    assert_eq!(75, Percent::average_many(&v).value());
    let empty: Vec<Percent> = Vec::new();
    assert_eq!(0, Percent::average_many(&empty).value());
}

#[test]
fn out_of_new() {
    for (mark, out_of) in [
        (0u16, 0u16),
        (0, 1),
        (10, 15),
        (15, 15),
        (u16::MIN, u16::MIN),
        (u16::MIN, u16::MAX),
        (u16::MAX, u16::MAX),
    ] {
        let r = OutOf::new(mark, out_of).unwrap();
        assert_eq!(r.mark(), mark);
        assert_eq!(r.out_of(), out_of);
    }
}

#[test]
fn out_of_new_invalid() {
    for (mark, out_of) in [(1u16, 0u16), (u16::MAX, u16::MIN)] {
        assert_eq!(OutOf::new(mark, out_of), Err(OutOfError::MarkTooLarge(mark, out_of)));
    }
}

#[test]
fn pct_to_grade_bands() {
    assert_eq!(Grade::A(Some(Modifier::Plus)), pct_to_grade(100));
    assert_eq!(Grade::A(Some(Modifier::Plus)), pct_to_grade(90));
    assert_eq!(Grade::A(None), pct_to_grade(89));
    assert_eq!(Grade::A(None), pct_to_grade(85));
    assert_eq!(Grade::A(Some(Modifier::Minus)), pct_to_grade(80));
    assert_eq!(Grade::B(Some(Modifier::Plus)), pct_to_grade(79));
    assert_eq!(Grade::B(None), pct_to_grade(70));
    assert_eq!(Grade::B(Some(Modifier::Minus)), pct_to_grade(65));
    assert_eq!(Grade::C(Some(Modifier::Plus)), pct_to_grade(60));
    assert_eq!(Grade::C(None), pct_to_grade(55));
    assert_eq!(Grade::C(Some(Modifier::Minus)), pct_to_grade(50));
    assert_eq!(Grade::D, pct_to_grade(49));
    assert_eq!(Grade::D, pct_to_grade(40));
    assert_eq!(Grade::E, pct_to_grade(39));
    assert_eq!(Grade::E, pct_to_grade(1));
    assert_eq!(Grade::F, pct_to_grade(0));
}

#[test]
fn grade_to_pct_values() {
    assert_eq!(90, grade_to_pct(Grade::A(Some(Modifier::Plus))));
    assert_eq!(85, grade_to_pct(Grade::A(None)));
    assert_eq!(80, grade_to_pct(Grade::A(Some(Modifier::Minus))));
    assert_eq!(75, grade_to_pct(Grade::B(Some(Modifier::Plus))));
    assert_eq!(70, grade_to_pct(Grade::B(None)));
    assert_eq!(65, grade_to_pct(Grade::B(Some(Modifier::Minus))));
    assert_eq!(60, grade_to_pct(Grade::C(Some(Modifier::Plus))));
    assert_eq!(55, grade_to_pct(Grade::C(None)));
    assert_eq!(50, grade_to_pct(Grade::C(Some(Modifier::Minus))));
    assert_eq!(40, grade_to_pct(Grade::D));
    assert_eq!(20, grade_to_pct(Grade::E));
    assert_eq!(0, grade_to_pct(Grade::F));
}

#[test]
fn grade_round_trip() {
    for g in [
        Grade::A(Some(Modifier::Plus)),
        Grade::A(None),
        Grade::A(Some(Modifier::Minus)),
        Grade::B(Some(Modifier::Plus)),
        Grade::B(None),
        Grade::B(Some(Modifier::Minus)),
        Grade::C(Some(Modifier::Plus)),
        Grade::C(None),
        Grade::C(Some(Modifier::Minus)),
        Grade::D,
        Grade::E,
        Grade::F,
    ] {
        assert_eq!(g, pct_to_grade(grade_to_pct(g)));
    }
}

#[test]
fn args_filename() {
    let args = Args::new(String::from("data/valid.json"));
    assert_eq!("data/valid.json", args.filename());
}

#[test]
fn error_wrappers() {
    let e = InvalidError::with_msg("Mark must be positive");
    assert_eq!("Mark must be positive", e.msg);
    let p = AssignmentParseError::new("missing field");
    assert_eq!("missing field", p.message());
}
