//! Letter grades with optional plus/minus modifiers, and the conversions
//! between letter grades and percentages.

use vstd::prelude::*;

verus! {

/// A letter grade modifier.
#[derive(Clone, Copy, Debug, PartialEq, Eq, Structural, PartialOrd, Ord)]
pub enum Modifier {
    Plus,
    Minus,
}

/// A letter grade; A through C may carry a modifier.
#[derive(Clone, Copy, Debug, PartialEq, Eq, Structural)]
pub enum Grade {
    A(Option<Modifier>),
    B(Option<Modifier>),
    C(Option<Modifier>),
    D,
    E,
    F,
}

/// The letter grade a percentage falls into.
pub open spec fn grade_of(pct: u8) -> Grade {
    if pct >= 90 {
        Grade::A(Some(Modifier::Plus))
    } else if pct >= 85 {
        Grade::A(None)
    } else if pct >= 80 {
        Grade::A(Some(Modifier::Minus))
    } else if pct >= 75 {
        Grade::B(Some(Modifier::Plus))
    } else if pct >= 70 {
        Grade::B(None)
    } else if pct >= 65 {
        Grade::B(Some(Modifier::Minus))
    } else if pct >= 60 {
        Grade::C(Some(Modifier::Plus))
    } else if pct >= 55 {
        Grade::C(None)
    } else if pct >= 50 {
        Grade::C(Some(Modifier::Minus))
    } else if pct >= 40 {
        Grade::D
    } else if pct >= 1 {
        Grade::E
    } else {
        Grade::F
    }
}

/// The representative percentage of a letter grade: the lower bound of its
/// band, except that E stands for 20.
pub open spec fn pct_of_grade(grade: Grade) -> u8 {
    match grade {
        Grade::A(Some(Modifier::Plus)) => 90,
        Grade::A(None) => 85,
        Grade::A(Some(Modifier::Minus)) => 80,
        Grade::B(Some(Modifier::Plus)) => 75,
        Grade::B(None) => 70,
        Grade::B(Some(Modifier::Minus)) => 65,
        Grade::C(Some(Modifier::Plus)) => 60,
        Grade::C(None) => 55,
        Grade::C(Some(Modifier::Minus)) => 50,
        Grade::D => 40,
        Grade::E => 20,
        Grade::F => 0,
    }
}

/// Convert a percentage to its letter grade.
pub fn pct_to_grade(pct: u8) -> (r: Grade)
    requires
        pct <= 100,
    ensures
        r == grade_of(pct),
{
    if pct >= 90 {
        Grade::A(Some(Modifier::Plus))
    } else if pct >= 85 {
        Grade::A(None)
    } else if pct >= 80 {
        Grade::A(Some(Modifier::Minus))
    } else if pct >= 75 {
        Grade::B(Some(Modifier::Plus))
    } else if pct >= 70 {
        Grade::B(None)
    } else if pct >= 65 {
        Grade::B(Some(Modifier::Minus))
    } else if pct >= 60 {
        Grade::C(Some(Modifier::Plus))
    } else if pct >= 55 {
        Grade::C(None)
    } else if pct >= 50 {
        Grade::C(Some(Modifier::Minus))
    } else if pct >= 40 {
        Grade::D
    } else if pct >= 1 {
        Grade::E
    } else {
        Grade::F
    }
}

/// Convert a letter grade to its representative percentage.
pub fn grade_to_pct(grade: Grade) -> (r: u8)
    ensures
        r == pct_of_grade(grade),
        r <= 100,
{
    match grade {
        Grade::A(Some(Modifier::Plus)) => 90,
        Grade::A(None) => 85,
        Grade::A(Some(Modifier::Minus)) => 80,
        Grade::B(Some(Modifier::Plus)) => 75,
        Grade::B(None) => 70,
        Grade::B(Some(Modifier::Minus)) => 65,
        Grade::C(Some(Modifier::Plus)) => 60,
        Grade::C(None) => 55,
        Grade::C(Some(Modifier::Minus)) => 50,
        Grade::D => 40,
        Grade::E => 20,
        Grade::F => 0,
    }
}

/// A grade's representative percentage falls back into the same grade: the
/// two conversions round-trip on every letter grade.
pub proof fn lemma_grade_round_trip(grade: Grade)
    ensures
        grade_of(pct_of_grade(grade)) == grade,
{
}

} // verus!
