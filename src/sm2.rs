use vstd::prelude::*;

verus! {

/// The lowest ease factor, in hundredths (1.3).
pub const MIN_EASE_HUNDREDTHS: u32 = 130;

/// The ease factor of a new card, in hundredths (2.5).
pub const INITIAL_EASE_HUNDREDTHS: u32 = 250;

/// A card's ease factor, held exactly in hundredths: 2.5 is 250.
#[derive(Clone, Copy, Debug, PartialEq, Eq, Structural)]
pub struct EaseFactor {
    pub hundredths: u32,
}

/// Change of the ease factor, in hundredths, for a review of the given quality:
/// -0.2 on failure, else 0.1 - (5 - q) * (0.08 + (5 - q) * 0.02).
pub open spec fn ease_delta(quality: int) -> int {
    if quality < 3 {
        -20
    } else {
        10 - (5 - quality) * (8 + 2 * (5 - quality))
    }
}

/// The ease factor after a review: never below 1.3, and saturating at the
/// largest value that a `u32` of hundredths holds.
pub open spec fn next_ease(ease: int, quality: int) -> int {
    let raw = ease + ease_delta(quality);
    if raw < MIN_EASE_HUNDREDTHS {
        MIN_EASE_HUNDREDTHS as int
    } else if raw > u32::MAX {
        u32::MAX as int
    } else {
        raw
    }
}

/// The repetition count after a review (saturating at `i32::MAX`).
pub open spec fn next_repetitions(repetitions: int, quality: int) -> int {
    if quality < 3 {
        0
    } else if repetitions >= i32::MAX {
        i32::MAX as int
    } else {
        repetitions + 1
    }
}

/// `p / 100` rounded half away from zero.
pub open spec fn round_hundredths(p: int) -> int {
    if p >= 0 {
        (p + 50) / 100
    } else {
        -((-p + 50) / 100)
    }
}

/// `round(interval * ease)` in whole days, at least 1 and at most `i32::MAX`.
pub open spec fn scaled_interval(interval: int, ease: int) -> int {
    let r = round_hundredths(interval * ease);
    if r < 1 {
        1
    } else if r > i32::MAX {
        i32::MAX as int
    } else {
        r
    }
}

/// The interval after a review: 1 on failure; on success 1 for the first
/// repetition, 6 for the second, and the previous interval scaled by the new
/// ease factor after that.
pub open spec fn next_interval(ease: int, interval: int, repetitions: int, quality: int) -> int {
    if quality < 3 {
        1
    } else {
        let reps = next_repetitions(repetitions, quality);
        if reps == 1 {
            1
        } else if reps == 2 {
            6
        } else {
            scaled_interval(interval, next_ease(ease, quality))
        }
    }
}

pub open spec fn valid_quality(quality: int) -> bool {
    0 <= quality <= 5
}

/// The scheduling state of a card.
#[derive(Clone, Copy, Debug, PartialEq, Eq, Structural)]
pub struct SchedulingState {
    pub ease_factor: EaseFactor,
    pub interval_days: i32,
    pub repetitions: i32,
}

impl SchedulingState {
    /// The state that one review of the given quality leads to.
    pub open spec fn after_review(self, quality: int) -> SchedulingState {
        SchedulingState {
            ease_factor: EaseFactor {
                hundredths: next_ease(self.ease_factor.hundredths as int, quality) as u32,
            },
            interval_days: next_interval(
                self.ease_factor.hundredths as int,
                self.interval_days as int,
                self.repetitions as int,
                quality,
            ) as i32,
            repetitions: next_repetitions(self.repetitions as int, quality) as i32,
        }
    }

    /// The state of a new card: ease 2.5, interval 1 day, no repetitions.
    pub open spec fn initial() -> SchedulingState {
        SchedulingState {
            ease_factor: EaseFactor { hundredths: INITIAL_EASE_HUNDREDTHS },
            interval_days: 1,
            repetitions: 0,
        }
    }
}

/// A failed review (quality below 3) restarts the card: no repetitions, an
/// interval of one day, and the ease factor lowered by exactly 0.2 but never
/// below 1.3.
pub proof fn failed_review_restarts(s: SchedulingState, quality: int)
    requires
        0 <= quality < 3,
        s.ease_factor.hundredths >= MIN_EASE_HUNDREDTHS,
    ensures
        s.after_review(quality).repetitions == 0,
        s.after_review(quality).interval_days == 1,
        s.after_review(quality).ease_factor.hundredths == if s.ease_factor.hundredths - 20
            >= MIN_EASE_HUNDREDTHS {
            s.ease_factor.hundredths - 20
        } else {
            MIN_EASE_HUNDREDTHS as int
        },
        s.after_review(quality).ease_factor.hundredths >= MIN_EASE_HUNDREDTHS,
{
}

/// A successful review (quality 3 to 5) adds one repetition; the interval is
/// then 1 day after the first, 6 after the second, and after that the previous
/// interval times the new ease factor, rounded, and at least 1.
pub proof fn passed_review_advances(s: SchedulingState, quality: int)
    requires
        3 <= quality <= 5,
        0 <= s.repetitions < i32::MAX,
    ensures
        s.after_review(quality).repetitions == s.repetitions + 1,
        s.after_review(quality).repetitions > s.repetitions,
        s.repetitions + 1 == 1 ==> s.after_review(quality).interval_days == 1,
        s.repetitions + 1 == 2 ==> s.after_review(quality).interval_days == 6,
        s.repetitions + 1 >= 3 ==> s.after_review(quality).interval_days == scaled_interval(
            s.interval_days as int,
            s.after_review(quality).ease_factor.hundredths as int,
        ),
        s.after_review(quality).interval_days >= 1,
        s.after_review(quality).ease_factor.hundredths >= MIN_EASE_HUNDREDTHS,
{
}

/// The SM-2 spaced-repetition scheduler.
pub struct Sm2Algorithm;

fn scale_interval(interval: i32, ease: u32) -> (r: i32)
    ensures
        r as int == scaled_interval(interval as int, ease as int),
{
    if interval <= 0 || ease == 0 {
        assert(interval as int * ease as int <= 0) by (nonlinear_arith)
            requires
                interval <= 0 || ease == 0,
                ease >= 0,
        ;
        1
    } else {
        assert(interval as int * ease as int <= 0x7fff_ffff * 0xffff_ffff) by (nonlinear_arith)
            requires
                0 < interval <= 0x7fff_ffff,
                0 < ease <= 0xffff_ffff,
        ;
        let p: u64 = interval as u64 * ease as u64;
        let q: u64 = (p + 50) / 100;
        if q < 1 {
            1
        } else if q > i32::MAX as u64 {
            i32::MAX
        } else {
            q as i32
        }
    }
}

impl Sm2Algorithm {
    /// The ease factor, interval and repetition count after one review of
    /// quality `quality` (0 to 5).
    pub fn calculate_next_review(
        current_ease_factor: EaseFactor,
        current_interval_days: i32,
        current_repetitions: i32,
        quality: i32,
    ) -> (r: (EaseFactor, i32, i32))
        requires
            valid_quality(quality as int),
        ensures
            r.0.hundredths as int == next_ease(current_ease_factor.hundredths as int, quality as int),
            r.1 as int == next_interval(
                current_ease_factor.hundredths as int,
                current_interval_days as int,
                current_repetitions as int,
                quality as int,
            ),
            r.2 as int == next_repetitions(current_repetitions as int, quality as int),
    {
        let ease = current_ease_factor.hundredths;
        if quality < 3 {
            let e: u32 = if ease < MIN_EASE_HUNDREDTHS + 20 {
                MIN_EASE_HUNDREDTHS
            } else {
                ease - 20
            };
            (EaseFactor { hundredths: e }, 1, 0)
        } else {
            let repetitions: i32 = if current_repetitions == i32::MAX {
                i32::MAX
            } else {
                current_repetitions + 1
            };
            let delta: i64 = if quality == 3 {
                -14
            } else if quality == 4 {
                0
            } else {
                10
            };
            assert(delta == ease_delta(quality as int)) by (nonlinear_arith)
                requires
                    3 <= quality <= 5,
                    quality == 3 ==> delta == -14,
                    quality == 4 ==> delta == 0,
                    quality == 5 ==> delta == 10,
            ;
            let raw: i64 = ease as i64 + delta;
            let e: u32 = if raw < MIN_EASE_HUNDREDTHS as i64 {
                MIN_EASE_HUNDREDTHS
            } else if raw > u32::MAX as i64 {
                u32::MAX
            } else {
                raw as u32
            };
            let interval: i32 = if repetitions == 1 {
                1
            } else if repetitions == 2 {
                6
            } else {
                scale_interval(current_interval_days, e)
            };
            (EaseFactor { hundredths: e }, interval, repetitions)
        }
    }

    /// The ease factor, interval and repetition count of a new card.
    pub fn initial_values() -> (r: (EaseFactor, i32, i32))
        ensures
            r.0 == SchedulingState::initial().ease_factor,
            r.1 == SchedulingState::initial().interval_days,
            r.2 == SchedulingState::initial().repetitions,
    {
        (EaseFactor { hundredths: INITIAL_EASE_HUNDREDTHS }, 1, 0)
    }

    /// The state after one review, or `InvalidInput` when `quality` lies
    /// outside 0 to 5.
    pub fn next_state(current: SchedulingState, quality: i32) -> (r: Result<SchedulingState, crate::error::AppError>)
        ensures
            valid_quality(quality as int) ==> r == Ok::<SchedulingState, crate::error::AppError>(current.after_review(quality as int)),
            !valid_quality(quality as int) ==> r == Err::<SchedulingState, crate::error::AppError>(crate::error::AppError::InvalidInput),
    {
        if quality < 0 || quality > 5 {
            return Err(crate::error::AppError::InvalidInput);
        }
        let (e, i, n) = Self::calculate_next_review(
            current.ease_factor,
            current.interval_days,
            current.repetitions,
            quality,
        );
        Ok(SchedulingState { ease_factor: e, interval_days: i, repetitions: n })
    }
}

} // verus!
