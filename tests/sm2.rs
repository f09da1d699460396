use flashcards::error::AppError;
use flashcards::sm2::{EaseFactor, SchedulingState, Sm2Algorithm};

fn ease(hundredths: u32) -> EaseFactor {
    EaseFactor { hundredths }
}

#[test]
fn test_initial_values() {
    let (ease_factor, interval_days, repetitions) = Sm2Algorithm::initial_values();
    assert_eq!(ease_factor, ease(250));
    assert_eq!(interval_days, 1);
    assert_eq!(repetitions, 0);
}

#[test]
fn test_failed_review() {
    let (ease_factor, interval_days, repetitions) = Sm2Algorithm::calculate_next_review(ease(250), 6, 2, 2);
    assert_eq!(interval_days, 1);
    assert_eq!(repetitions, 0);
    assert!(ease_factor.hundredths < 250);
}

#[test]
fn test_passed_review_first() {
    let (_ease_factor, interval_days, repetitions) = Sm2Algorithm::calculate_next_review(ease(250), 1, 0, 4);
    assert_eq!(interval_days, 1);
    assert_eq!(repetitions, 1);
}

#[test]
fn test_passed_review_second() {
    let (_ease_factor, interval_days, repetitions) = Sm2Algorithm::calculate_next_review(ease(250), 1, 1, 4);
    assert_eq!(interval_days, 6);
    assert_eq!(repetitions, 2);
}

#[test]
fn failed_review_lowers_ease_by_two_tenths() {
    for q in 0..3 {
        let (e, i, r) = Sm2Algorithm::calculate_next_review(ease(250), 15, 4, q);
        assert_eq!(e, ease(230));
        assert_eq!(i, 1);
        assert_eq!(r, 0);
    }
}

#[test]
fn failed_review_keeps_ease_at_floor() {
    let (e, _, _) = Sm2Algorithm::calculate_next_review(ease(140), 15, 4, 1);
    assert_eq!(e, ease(130));
    let (e, _, _) = Sm2Algorithm::calculate_next_review(ease(130), 15, 4, 0);
    assert_eq!(e, ease(130));
}

#[test]
fn ease_changes_by_quality() {
    let (e3, _, _) = Sm2Algorithm::calculate_next_review(ease(250), 6, 2, 3);
    let (e4, _, _) = Sm2Algorithm::calculate_next_review(ease(250), 6, 2, 4);
    let (e5, _, _) = Sm2Algorithm::calculate_next_review(ease(250), 6, 2, 5);
    assert_eq!(e3, ease(236));
    assert_eq!(e4, ease(250));
    assert_eq!(e5, ease(260));
    let (low, _, _) = Sm2Algorithm::calculate_next_review(ease(135), 6, 2, 3);
    assert_eq!(low, ease(130));
}

#[test]
fn third_review_with_quality_four() {
    // ease 2.5 + 0.1 - 1 * (0.08 + 1 * 0.02) = 2.5; round(6 * 2.5) = 15
    let (e, i, r) = Sm2Algorithm::calculate_next_review(ease(250), 6, 2, 4);
    assert_eq!(r, 3);
    assert_eq!(e, ease(250));
    assert_eq!(i, 15);
}

#[test]
fn third_review_with_quality_five() {
    // ease 2.6; round(6 * 2.6) = round(15.6) = 16
    let (e, i, r) = Sm2Algorithm::calculate_next_review(ease(250), 6, 2, 5);
    assert_eq!(r, 3);
    assert_eq!(e, ease(260));
    assert_eq!(i, 16);
}

#[test]
fn interval_rounds_half_away_from_zero() {
    // 5 * 2.5 = 12.5 rounds to 13
    let (_, i, _) = Sm2Algorithm::calculate_next_review(ease(250), 5, 3, 4);
    assert_eq!(i, 13);
    // 1 * 1.3 = 1.3 rounds to 1
    let (_, i, _) = Sm2Algorithm::calculate_next_review(ease(130), 1, 5, 4);
    assert_eq!(i, 1);
}

#[test]
fn interval_saturates_at_largest_i32() {
    let (_, i, _) = Sm2Algorithm::calculate_next_review(ease(250), i32::MAX, 5, 4);
    assert_eq!(i, i32::MAX);
}

#[test]
fn next_state_rejects_quality_out_of_range() {
    let s = SchedulingState { ease_factor: ease(250), interval_days: 6, repetitions: 2 };
    assert_eq!(Sm2Algorithm::next_state(s, -1), Err(AppError::InvalidInput));
    assert_eq!(Sm2Algorithm::next_state(s, 6), Err(AppError::InvalidInput));
    assert_eq!(Sm2Algorithm::next_state(s, i32::MAX), Err(AppError::InvalidInput));
    assert_eq!(
        Sm2Algorithm::next_state(s, 5),
        Ok(SchedulingState { ease_factor: ease(260), interval_days: 16, repetitions: 3 })
    );
}
