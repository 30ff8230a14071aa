use tracker_core::mark::{InvalidMarkError, Mark};

#[test]
fn percent_ok_boundaries() {
    assert_eq!(Mark::percent(0), Ok(Mark::Percent(0)));
    assert_eq!(Mark::percent(50), Ok(Mark::Percent(50)));
    assert_eq!(Mark::percent(100), Ok(Mark::Percent(100)));
}

#[test]
fn percent_err() {
    assert_eq!(Mark::percent(101), Err(InvalidMarkError::PercentOutOfRange(101)));
    assert_eq!(Mark::percent(u32::MAX), Err(InvalidMarkError::PercentOutOfRange(u32::MAX)));
}

#[test]
fn letter_ok_boundaries() {
    assert_eq!(Mark::letter('A'), Ok(Mark::Letter('A')));
    assert_eq!(Mark::letter('M'), Ok(Mark::Letter('M')));
    assert_eq!(Mark::letter('Z'), Ok(Mark::Letter('Z')));
}

#[test]
fn letter_err() {
    // '@' and '[' sit just outside the range 'A'..='Z' in ASCII
    assert_eq!(Mark::letter('@'), Err(InvalidMarkError::LetterOutOfRange('@')));
    assert_eq!(Mark::letter('['), Err(InvalidMarkError::LetterOutOfRange('[')));
    assert_eq!(Mark::letter('a'), Err(InvalidMarkError::LetterOutOfRange('a')));
    assert_eq!(Mark::letter('2'), Err(InvalidMarkError::LetterOutOfRange('2')));
    assert_eq!(Mark::letter('$'), Err(InvalidMarkError::LetterOutOfRange('$')));
    assert_eq!(Mark::letter(' '), Err(InvalidMarkError::LetterOutOfRange(' ')));
    assert_eq!(Mark::letter('\n'), Err(InvalidMarkError::LetterOutOfRange('\n')));
}

#[test]
fn out_of_ok() {
    // concrete scenario: 9 out of 10 is a valid mark, 10 out of 9 is not
    assert_eq!(Mark::out_of(9, 10), Ok(Mark::OutOf(9, 10)));
    assert_eq!(Mark::out_of(10, 9), Err(InvalidMarkError::OutOfInvalid(10, 9)));
    assert_eq!(Mark::out_of(0, 0), Ok(Mark::OutOf(0, 0)));
    assert_eq!(Mark::out_of(u32::MIN, u32::MAX), Ok(Mark::OutOf(u32::MIN, u32::MAX)));
    assert_eq!(Mark::out_of(u32::MAX, u32::MAX), Ok(Mark::OutOf(u32::MAX, u32::MAX)));
}

#[test]
fn out_of_err() {
    assert_eq!(Mark::out_of(u32::MAX, u32::MIN), Err(InvalidMarkError::OutOfInvalid(u32::MAX, 0)));
    assert_eq!(Mark::out_of(99, 10), Err(InvalidMarkError::OutOfInvalid(99, 10)));
    assert_eq!(Mark::out_of(25, 24), Err(InvalidMarkError::OutOfInvalid(25, 24)));
}

#[test]
fn check_valid_ok() {
    for m in [
        Mark::Percent(0),
        Mark::Percent(75),
        Mark::Percent(100),
        Mark::Letter('A'),
        Mark::Letter('E'),
        Mark::Letter('Z'),
        Mark::OutOf(0, 0),
        Mark::OutOf(22, 25),
        Mark::OutOf(90, 100),
        Mark::OutOf(1, 1),
    ] {
        assert!(m.check_valid().is_ok());
    }
}

#[test]
fn check_valid_err() {
    assert_eq!(
        Mark::Percent(101).check_valid(),
        Err(InvalidMarkError::PercentOutOfRange(101))
    );
    assert_eq!(Mark::Letter('a').check_valid(), Err(InvalidMarkError::LetterOutOfRange('a')));
    assert_eq!(Mark::Letter('$').check_valid(), Err(InvalidMarkError::LetterOutOfRange('$')));
    assert_eq!(Mark::Letter('0').check_valid(), Err(InvalidMarkError::LetterOutOfRange('0')));
    assert_eq!(Mark::OutOf(1, 0).check_valid(), Err(InvalidMarkError::OutOfInvalid(1, 0)));
    assert_eq!(Mark::OutOf(10, 5).check_valid(), Err(InvalidMarkError::OutOfInvalid(10, 5)));
}
